//! The schema of a web archive: which properties an entry has and where a
//! reader finds them in a container's layout.

use vstd::prelude::*;
use crate::entry::EntryType;
use crate::error::WajFormatError;

verus! {

/// The properties of the entries of a web archive.
#[derive(Clone, Copy, Debug, PartialEq, Eq, Structural)]
pub enum Property {
    Path,
    Mimetype,
    Content,
    Target,
}

/// How a property's value is stored.
#[derive(Clone, Copy, Debug, PartialEq, Eq, Structural)]
pub enum PropertyKind {
    /// A byte string, part of it inline and the rest in a value store.
    Array,
    /// The address of a payload.
    Content,
    /// Anything else a container may hold; a web archive has none.
    Other,
}

impl Property {
    /// The name of the property in the archive's schema.
    pub fn name(self) -> (name: &'static str)
        ensures
            name@ == self.name_spec(),
    {
        match self {
            Property::Path => "path",
            Property::Mimetype => "mimetype",
            Property::Content => "content",
            Property::Target => "target",
        }
    }

    pub open spec fn name_spec(self) -> Seq<char> {
        match self {
            Property::Path => "path"@,
            Property::Mimetype => "mimetype"@,
            Property::Content => "content"@,
            Property::Target => "target"@,
        }
    }

    /// How the property is stored.
    pub fn kind(self) -> (kind: PropertyKind)
        ensures
            kind == self.kind_spec(),
    {
        match self {
            Property::Content => PropertyKind::Content,
            _ => PropertyKind::Array,
        }
    }

    pub open spec fn kind_spec(self) -> PropertyKind {
        match self {
            Property::Content => PropertyKind::Content,
            _ => PropertyKind::Array,
        }
    }
}

/// One property as a container's layout declares it.
#[derive(Debug)]
pub struct PropertyLayout {
    pub name: String,
    pub kind: PropertyKind,
}

/// One variant as a container's layout declares it.
#[derive(Debug)]
pub struct VariantLayout {
    pub name: String,
    pub properties: Vec<PropertyLayout>,
}

/// The layout of an entry store: the properties that all records have and
/// the variants with theirs.
#[derive(Debug)]
pub struct Layout {
    pub common: Vec<PropertyLayout>,
    pub variants: Vec<VariantLayout>,
}

/// Where a reader finds the properties of a web archive in a layout: each
/// field is a position in the layout's lists.
#[derive(Debug)]
pub struct AllProperties {
    pub path_property: usize,
    pub content_variant: usize,
    pub content_mimetype_property: usize,
    pub content_address_property: usize,
    pub redirect_variant: usize,
    pub redirect_target_property: usize,
}

/// The position of the first of `properties` called `name`, from `i` on.
pub open spec fn property_from(properties: Seq<PropertyLayout>, name: Seq<char>, i: int) -> Option<
    int,
>
    decreases properties.len() - i,
{
    if i < 0 || i >= properties.len() {
        None
    } else if properties[i].name@ == name {
        Some(i)
    } else {
        property_from(properties, name, i + 1)
    }
}

/// The position of the first of `variants` called `name`, from `i` on.
pub open spec fn variant_from(variants: Seq<VariantLayout>, name: Seq<char>, i: int) -> Option<int>
    decreases variants.len() - i,
{
    if i < 0 || i >= variants.len() {
        None
    } else if variants[i].name@ == name {
        Some(i)
    } else {
        variant_from(variants, name, i + 1)
    }
}

/// The report of a property that a layout lacks.
pub open spec fn not_present(property: Property) -> Seq<char> {
    match property {
        Property::Path => "Property path is not present."@,
        Property::Mimetype => "Property mimetype is not present."@,
        Property::Content => "Property content is not present."@,
        Property::Target => "Property target is not present."@,
    }
}

/// The report of a property that a layout has in another kind.
pub open spec fn wrong_kind(property: Property) -> Seq<char> {
    match property {
        Property::Path => "Property path is not a array property."@,
        Property::Mimetype => "Property mimetype is not a array property."@,
        Property::Content => "Property content is not a content property."@,
        Property::Target => "Property target is not a array property."@,
    }
}

/// The report of a variant that a layout lacks.
pub open spec fn variant_not_present(variant: EntryType) -> Seq<char> {
    match variant {
        EntryType::Content => "Variant `content` is not present."@,
        EntryType::Redirect => "Variant `redirect` is not present."@,
    }
}

/// Where `properties` has `property`, or the report of why it is no
/// property of a web archive: it must be there, and of the right kind.
pub open spec fn located(properties: Seq<PropertyLayout>, property: Property) -> Result<
    int,
    Seq<char>,
> {
    match property_from(properties, property.name_spec(), 0) {
        None => Err(not_present(property)),
        Some(i) => if properties[i].kind == property.kind_spec() {
            Ok(i)
        } else {
            Err(wrong_kind(property))
        },
    }
}

/// What a result comes to, positions and reports by their content.
pub open spec fn outcome<T>(result: Result<T, WajFormatError>) -> Result<T, Seq<char>> {
    match result {
        Ok(v) => Ok(v),
        Err(e) => Err(e.0@),
    }
}

fn locate(properties: &Vec<PropertyLayout>, property: Property) -> (found: Result<
    usize,
    WajFormatError,
>)
    ensures
        match located(properties@, property) {
            Ok(i) => found == Ok::<usize, WajFormatError>(i as usize) && 0 <= i
                < properties@.len(),
            Err(report) => found matches Err(e) && e.0@ == report,
        },
{
    let name = String::from_str(property.name());
    let mut i: usize = 0;
    while i < properties.len()
        invariant
            i <= properties.len(),
            name@ == property.name_spec(),
            property_from(properties@, property.name_spec(), 0) == property_from(
                properties@,
                property.name_spec(),
                i as int,
            ),
        decreases properties.len() - i,
    {
        if properties[i].name == name {
            if properties[i].kind == property.kind() {
                return Ok(i);
            }
            return Err(
                WajFormatError(
                    match property {
                        Property::Path => "Property path is not a array property.",
                        Property::Mimetype => "Property mimetype is not a array property.",
                        Property::Content => "Property content is not a content property.",
                        Property::Target => "Property target is not a array property.",
                    },
                ),
            );
        }
        i += 1;
    }
    Err(
        WajFormatError(
            match property {
                Property::Path => "Property path is not present.",
                Property::Mimetype => "Property mimetype is not present.",
                Property::Content => "Property content is not present.",
                Property::Target => "Property target is not present.",
            },
        ),
    )
}

fn locate_variant(variants: &Vec<VariantLayout>, variant: EntryType) -> (found: Result<
    usize,
    WajFormatError,
>)
    ensures
        match variant_from(variants@, variant.name_spec(), 0) {
            Some(i) => found == Ok::<usize, WajFormatError>(i as usize) && 0 <= i
                < variants@.len(),
            None => found matches Err(e) && e.0@ == variant_not_present(variant),
        },
{
    let name = String::from_str(variant.name());
    let mut i: usize = 0;
    while i < variants.len()
        invariant
            i <= variants.len(),
            name@ == variant.name_spec(),
            variant_from(variants@, variant.name_spec(), 0) == variant_from(
                variants@,
                variant.name_spec(),
                i as int,
            ),
        decreases variants.len() - i,
    {
        if variants[i].name == name {
            return Ok(i);
        }
        i += 1;
    }
    Err(
        WajFormatError(
            match variant {
                EntryType::Content => "Variant `content` is not present.",
                EntryType::Redirect => "Variant `redirect` is not present.",
            },
        ),
    )
}

/// Where a layout has the properties of a web archive, or the report of
/// the first thing that keeps it from being the layout of one. In this
/// order: it has two variants; its records have a path; it has a variant
/// `content` with a MIME type and a content address; it has a variant
/// `redirect` with a target.
pub open spec fn all_properties(layout: Layout) -> Result<AllProperties, Seq<char>> {
    if layout.variants@.len() != 2 {
        Err("Layout must contain 2 variants"@)
    } else {
        match located(layout.common@, Property::Path) {
            Err(report) => Err(report),
            Ok(path) => match variant_from(layout.variants@, EntryType::Content.name_spec(), 0) {
                None => Err(variant_not_present(EntryType::Content)),
                Some(content) => match located(
                    layout.variants@[content].properties@,
                    Property::Mimetype,
                ) {
                    Err(report) => Err(report),
                    Ok(mimetype) => match located(
                        layout.variants@[content].properties@,
                        Property::Content,
                    ) {
                        Err(report) => Err(report),
                        Ok(address) => match variant_from(
                            layout.variants@,
                            EntryType::Redirect.name_spec(),
                            0,
                        ) {
                            None => Err(variant_not_present(EntryType::Redirect)),
                            Some(redirect) => match located(
                                layout.variants@[redirect].properties@,
                                Property::Target,
                            ) {
                                Err(report) => Err(report),
                                Ok(target) => Ok(
                                    AllProperties {
                                        path_property: path as usize,
                                        content_variant: content as usize,
                                        content_mimetype_property: mimetype as usize,
                                        content_address_property: address as usize,
                                        redirect_variant: redirect as usize,
                                        redirect_target_property: target as usize,
                                    },
                                ),
                            },
                        },
                    },
                },
            },
        }
    }
}

impl AllProperties {
    /// Finds the properties of a web archive in `layout`, or tells why it
    /// is not the layout of one.
    pub fn new(layout: &Layout) -> (properties: Result<AllProperties, WajFormatError>)
        ensures
            outcome(properties) == all_properties(*layout),
    {
        if layout.variants.len() != 2 {
            return Err(WajFormatError("Layout must contain 2 variants"));
        }
        let path_property = match locate(&layout.common, Property::Path) {
            Ok(at) => at,
            Err(e) => {
                return Err(e);
            },
        };
        let content_variant = match locate_variant(&layout.variants, EntryType::Content) {
            Ok(at) => at,
            Err(e) => {
                return Err(e);
            },
        };
        let content = &layout.variants[content_variant].properties;
        let content_mimetype_property = match locate(content, Property::Mimetype) {
            Ok(at) => at,
            Err(e) => {
                return Err(e);
            },
        };
        let content_address_property = match locate(content, Property::Content) {
            Ok(at) => at,
            Err(e) => {
                return Err(e);
            },
        };
        let redirect_variant = match locate_variant(&layout.variants, EntryType::Redirect) {
            Ok(at) => at,
            Err(e) => {
                return Err(e);
            },
        };
        let redirect = &layout.variants[redirect_variant].properties;
        let redirect_target_property = match locate(redirect, Property::Target) {
            Ok(at) => at,
            Err(e) => {
                return Err(e);
            },
        };
        Ok(
            AllProperties {
                path_property,
                content_variant,
                content_mimetype_property,
                content_address_property,
                redirect_variant,
                redirect_target_property,
            },
        )
    }
}

} // verus!
