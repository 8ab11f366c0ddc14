use std::collections::HashMap;
use std::io::{Cursor, Read};
use std::path::Path;
use std::sync::Arc;

use jubako as jbk;
use jubako::reader::builder::PropertyBuilderTrait;
use jubako::reader::Range;

use waj::create::content::{Added, CachedContentPack};
use waj::create::creator::FsCreator;
use waj::create::entry::{Entry as Record, Value};
use waj::create::entry_store_creator::{schema, EntryStore, PropertySchema, Store};
use waj::create::fs_adder::{detect_mime, FsEntry, FsEntryKind, StripPrefix};
use waj::create::output::CachedSize;
use waj::entry::{ContentAddress, EntryType};
use waj::error::{BaseError, WajError, WajFormatError};
use waj::properties::{
    AllProperties, Layout, Property, PropertyKind, PropertyLayout, VariantLayout,
};
use waj::response::{Body, ContentBytes, Header, Response};
use waj::serve::handler::{etag_for, Fetched, Method, Request, Step, WajServer};
use waj::waj::ENTRIES_INDEX;
use waj::Waj;

type PackEntry = jbk::creator::BasicEntry<&'static str, &'static str>;
type PackEntryStore = jbk::creator::EntryStore<&'static str, &'static str, PackEntry>;

struct Stores {
    path_store: jbk::creator::StoreHandle,
    mime_store: jbk::creator::StoreHandle,
    entries: Box<PackEntryStore>,
    index_name: &'static str,
    first_entry: u32,
    entry_count: u32,
}

fn pack_property(
    property: &PropertySchema,
    path_store: &jbk::creator::StoreHandle,
    mime_store: &jbk::creator::StoreHandle,
) -> jbk::creator::schema::Property<&'static str> {
    match property {
        PropertySchema::Array { inline, store, name } => jbk::creator::schema::Property::new_array(
            *inline as usize,
            match store {
                Store::Path => path_store.clone(),
                Store::Mime => mime_store.clone(),
            },
            name.name(),
        ),
        PropertySchema::ContentAddress { name } => {
            jbk::creator::schema::Property::new_content_address(name.name())
        }
    }
}

fn pack_value(value: Value) -> jbk::Value {
    match value {
        Value::Array(bytes) => jbk::Value::Array(bytes.into()),
        Value::Content(address) => jbk::Value::Content(jbk::ContentAddress::new(
            jbk::PackId::from(address.pack_id as u16),
            address.content_id.into(),
        )),
    }
}

impl Stores {
    fn new(store: EntryStore) -> Self {
        let path_store = jbk::creator::ValueStore::new_plain(None);
        let mime_store = jbk::creator::ValueStore::new_indexed();
        let described = schema();
        let convert = |properties: &Vec<PropertySchema>| -> Vec<_> {
            properties.iter().map(|p| pack_property(p, &path_store, &mime_store)).collect()
        };
        let pack_schema = jbk::creator::schema::Schema::new(
            jbk::creator::schema::CommonProperties::new(convert(&described.common)),
            vec![
                (
                    EntryType::Content.name(),
                    jbk::creator::schema::VariantProperties::new(convert(&described.content)),
                ),
                (
                    EntryType::Redirect.name(),
                    jbk::creator::schema::VariantProperties::new(convert(&described.redirect)),
                ),
            ],
            None,
        );
        let mut entries = Box::new(PackEntryStore::new(pack_schema, Some(store.entries.len())));
        for record in &store.entries {
            let variant = record.variant_name().expect("every record has a variant");
            let properties: &[Property] = match variant {
                EntryType::Content => &[Property::Path, Property::Mimetype, Property::Content],
                EntryType::Redirect => &[Property::Path, Property::Target],
            };
            assert_eq!(properties.len(), record.value_count() as usize);
            let values: HashMap<&'static str, jbk::Value> =
                properties.iter().map(|p| (p.name(), pack_value(record.value(p)))).collect();
            let entry = PackEntry::new_from_schema(&entries.schema, Some(variant.name()), values);
            entries.add_entry(entry);
        }
        Stores {
            path_store,
            mime_store,
            entries,
            index_name: store.index.name,
            first_entry: store.index.first_entry,
            entry_count: store.index.entry_count,
        }
    }
}

impl jbk::creator::EntryStoreTrait for Stores {
    fn finalize(self: Box<Self>, directory_pack: &mut jbk::creator::DirectoryPackCreator) {
        directory_pack.add_value_store(self.path_store);
        directory_pack.add_value_store(self.mime_store);
        let store_id = directory_pack.add_entry_store(self.entries);
        directory_pack.create_index(
            self.index_name,
            Default::default(),
            jbk::PropertyIdx::from(0),
            store_id,
            jbk::EntryCount::from(self.entry_count),
            jbk::EntryIdx::from(self.first_entry).into(),
        );
    }
}

struct Tree {
    files: Vec<(&'static str, Vec<u8>)>,
    links: Vec<(&'static str, &'static str)>,
    main: Option<&'static str>,
}

struct Written {
    cached: u64,
    stored: usize,
}

fn write_archive(tree: &Tree, outfile: &Path, mode: jbk::creator::ConcatMode) -> Written {
    let mut packer = jbk::creator::BasicCreator::new(
        outfile.to_str().unwrap(),
        mode,
        jbk::VendorId::from(waj::VENDOR_ID.to_be_bytes()),
        jbk::creator::Compression::default(),
        Arc::new(()),
    )
    .unwrap();
    let mut contents = CachedContentPack::new();
    let mut cached = CachedSize::new();
    let mut creator = FsCreator::new(StripPrefix::new(String::new()));
    for (name, content) in &tree.files {
        let added = contents.add_content(content);
        match added {
            Added::Fresh(idx) => {
                let address = packer
                    .add_content(Box::new(Cursor::new(content.clone())), Default::default())
                    .unwrap();
                assert_eq!(address.pack_id.into_u16(), added.address().pack_id as u16);
                assert_eq!(address.content_id.into_u32(), idx);
            }
            Added::Cached(_) => cached.cached_data(content.len() as u64),
        }
        let head = &content[..content.len().min(100)];
        let entry = FsEntry::new_from_walk_entry(
            name.to_string(),
            name.to_string(),
            FsEntryKind::File(added.address(), detect_mime(name, head)),
        );
        creator.fs_adder().add_entry(&entry).unwrap();
    }
    for (name, target) in &tree.links {
        let entry = FsEntry::new_from_walk_entry(
            name.to_string(),
            name.to_string(),
            FsEntryKind::Link { target: target.to_string(), to_directory: false },
        );
        creator.fs_adder().add_entry(&entry).unwrap();
    }
    creator.add_main(tree.main);
    let store = creator.finalize();
    packer.finalize(Box::new(Stores::new(store)), vec![]).unwrap();
    Written { cached: cached.get(), stored: contents.len() }
}

struct Archive {
    container: jbk::reader::Container,
    server: WajServer,
}

fn read_bytes(
    builder: &jbk::reader::builder::ArrayProperty,
    reader: &jbk::reader::ByteSlice,
) -> jbk::Result<Vec<u8>> {
    let mut bytes = jbk::SmallBytes::new();
    builder.create(reader)?.resolve_to_vec(&mut bytes)?;
    Ok(bytes.to_vec())
}

fn open_archive(path: &Path) -> Result<Archive, WajError> {
    open_archive_with_packs_in(path, path.parent().unwrap())
}

fn open_archive_with_packs_in(path: &Path, packs: &Path) -> Result<Archive, WajError> {
    let report = |e: jbk::Error| WajError::from(BaseError::Jbk(e.to_string()));
    let locator = Arc::new(jbk::reader::FsLocator::new(packs.to_path_buf()));
    let container = jbk::reader::Container::new_with_locator(path, locator).map_err(report)?;
    let index = container
        .get_index_for_name(ENTRIES_INDEX)
        .map_err(report)?
        .ok_or(WajFormatError("No `waj_entries` in the archive"))?;
    let store = index.get_store(container.get_entry_storage()).map_err(report)?;
    let value_storage = container.get_value_storage();
    let value_storage: &jbk::reader::ValueStorage = value_storage;
    let pack_layout = store.layout();
    let part = pack_layout
        .variant_part
        .as_ref()
        .ok_or(WajFormatError("Layout must contain 2 variants"))?;
    let mut common = Vec::new();
    for (name, property) in pack_layout.common.iter() {
        let kind = if property
            .as_builder::<jbk::reader::builder::ArrayProperty, _>(value_storage)
            .map_err(report)?
            .is_some()
        {
            PropertyKind::Array
        } else if property
            .as_builder::<jbk::reader::builder::ContentProperty, _>(value_storage)
            .map_err(report)?
            .is_some()
        {
            PropertyKind::Content
        } else {
            PropertyKind::Other
        };
        common.push(PropertyLayout { name: name.to_string(), kind });
    }
    let mut variants = Vec::new();
    let mut names: Vec<(&jbk::SmallString, &u8)> = part.names.iter().collect();
    names.sort_by_key(|(_, idx)| **idx);
    for (variant_name, idx) in names {
        let mut properties = Vec::new();
        for (name, property) in part.variants[*idx as usize].iter() {
            let kind = if property
                .as_builder::<jbk::reader::builder::ArrayProperty, _>(value_storage)
                .map_err(report)?
                .is_some()
            {
                PropertyKind::Array
            } else if property
                .as_builder::<jbk::reader::builder::ContentProperty, _>(value_storage)
                .map_err(report)?
                .is_some()
            {
                PropertyKind::Content
            } else {
                PropertyKind::Other
            };
            properties.push(PropertyLayout { name: name.to_string(), kind });
        }
        variants.push(VariantLayout { name: variant_name.to_string(), properties });
    }
    let layout = Layout { common, variants };
    let found = AllProperties::new(&layout)?;

    let variant_id = part.as_builder();
    let content_properties = &part.variants[found.content_variant];
    let redirect_properties = &part.variants[found.redirect_variant];
    let path: jbk::reader::builder::ArrayProperty = pack_layout
        .common
        .get(Property::Path.name())
        .and_then(|p| p.as_builder(value_storage).ok().flatten())
        .expect("the layout was checked");
    let mimetype: jbk::reader::builder::ArrayProperty = content_properties
        .get(Property::Mimetype.name())
        .and_then(|p| p.as_builder(value_storage).ok().flatten())
        .expect("the layout was checked");
    let address: jbk::reader::builder::ContentProperty = content_properties
        .get(Property::Content.name())
        .and_then(|p| p.as_builder(value_storage).ok().flatten())
        .expect("the layout was checked");
    let target: jbk::reader::builder::ArrayProperty = redirect_properties
        .get(Property::Target.name())
        .and_then(|p| p.as_builder(value_storage).ok().flatten())
        .expect("the layout was checked");

    let mut records = Vec::new();
    for idx in 0..index.count().into_u32() {
        let reader = store
            .get_entry_reader(index.offset() + jbk::EntryIdx::from(idx))
            .ok_or(WajFormatError("The index runs past the entry store"))?;
        let variant = variant_id.create(&reader).map_err(report)?.into_u8() as usize;
        let entry_path = read_bytes(&path, &reader).map_err(report)?;
        let record = if variant == found.content_variant {
            let content = address.create(&reader).map_err(report)?;
            Record::new_content(
                entry_path,
                read_bytes(&mimetype, &reader).map_err(report)?,
                ContentAddress::new(
                    u8::try_from(content.pack_id.into_u16())
                        .map_err(|_| WajFormatError("Content address not valid"))?,
                    content.content_id.into_u32(),
                ),
            )
        } else if variant == found.redirect_variant {
            Record::new_redirect(entry_path, read_bytes(&target, &reader).map_err(report)?)
        } else {
            return Err(WajFormatError("Invalid variant id").into());
        };
        records.push(record);
    }
    let etag = etag_for(&container.uuid().to_string());
    Ok(Archive { server: WajServer::new(Waj::new(records)?, etag), container })
}

impl Archive {
    fn fetch(&self, address: ContentAddress) -> (Fetched, Option<jbk::reader::ByteRegion>) {
        let address = jbk::ContentAddress::new(
            jbk::PackId::from(address.pack_id as u16),
            address.content_id.into(),
        );
        match self.container.get_bytes(address) {
            Err(e) => (Fetched::Failed(e.to_string()), None),
            Ok(bytes) => match bytes.and_then(|m| m.transpose()) {
                None => (Fetched::Invalid, None),
                Some(jbk::reader::MayMissPack::MISSING(info)) => (
                    Fetched::Bytes(ContentBytes::Missing {
                        uuid: info.uuid.to_string(),
                        location: info.pack_location.to_string(),
                    }),
                    None,
                ),
                Some(jbk::reader::MayMissPack::FOUND(region)) => (
                    Fetched::Bytes(ContentBytes::Found { size: region.size().into_u64() }),
                    Some(region),
                ),
            },
        }
    }

    fn answer(&self, method: Method, url: &str, headers: &[(&str, &str)]) -> (Response, Vec<u8>) {
        let request = Request {
            method,
            url: url.to_string(),
            headers: headers.iter().map(|(f, v)| Header::new(f, v.to_string())).collect(),
        };
        match self.server.handle(&request, url) {
            Step::Respond(response) => (response, vec![]),
            Step::Fetch(pending) => {
                let (fetched, region) = self.fetch(pending.address);
                let response = self.server.finish(&request, &pending, &fetched);
                let mut body = Vec::new();
                match &response.body {
                    Body::Empty => {}
                    Body::Text(text) => body.extend_from_slice(text.as_bytes()),
                    Body::Content { offset, size } => {
                        let region = region.expect("a body of content needs the content");
                        region
                            .cut(jbk::Offset::from(*offset), jbk::Size::from(*size))
                            .stream()
                            .read_to_end(&mut body)
                            .unwrap();
                    }
                }
                (response, body)
            }
        }
    }

    fn get(&self, url: &str) -> (Response, Vec<u8>) {
        self.answer(Method::Get, url, &[])
    }
}

fn header<'a>(response: &'a Response, name: &str) -> Option<&'a str> {
    response.header(name).map(String::as_str)
}

fn site() -> Tree {
    Tree {
        files: vec![
            ("a.txt", b"hello".to_vec()),
            ("b.html", b"<html></html>".to_vec()),
            ("dir/index.html", b"<html>dir</html>".to_vec()),
            ("dir/noext", b"<!doctype html><p>x</p>".to_vec()),
            ("data.bin", (0..=255u8).cycle().take(70_000).collect()),
            ("style.css", b"a{}".to_vec()),
            ("ref", (0..=255u8).collect()),
        ],
        links: vec![("link", "b.html"), ("dir/up", "../a.txt")],
        main: Some("a.txt"),
    }
}

#[test]
fn every_file_comes_back_as_it_went_in() {
    let dir = tempfile::tempdir().unwrap();
    let tree = site();
    for (n, mode) in [
        jbk::creator::ConcatMode::OneFile,
        jbk::creator::ConcatMode::TwoFiles,
        jbk::creator::ConcatMode::NoConcat,
    ]
    .into_iter()
    .enumerate()
    {
        let outfile = dir.path().join(format!("site{n}.waj"));
        write_archive(&tree, &outfile, mode);
        let archive = open_archive(&outfile).unwrap();
        assert_eq!(archive.server.waj.len(), tree.files.len() + tree.links.len() + 1);
        for (name, content) in &tree.files {
            if n > 0 {
                // Payloads in a pack file of their own are the container's to find;
                // here only the index is looked at.
                let found = archive.server.waj.get_entry(name).unwrap();
                assert_eq!(found.entry_type(), EntryType::Content, "{name}");
                continue;
            }
            let (response, body) = archive.get(&format!("/{name}"));
            assert_eq!(response.status, 200, "{name}");
            assert_eq!(&body, content, "{name}");
            let head = &content[..content.len().min(100)];
            assert_eq!(header(&response, "Content-Type"), Some(detect_mime(name, head).as_str()));
            assert_eq!(
                header(&response, "Content-Length"),
                Some(content.len().to_string().as_str())
            );
        }
        for (name, target) in &tree.links {
            let (response, body) = archive.get(&format!("/{name}"));
            assert_eq!(response.status, 302, "{name}");
            assert_eq!(header(&response, "Location"), Some(format!("/{target}").as_str()));
            assert!(body.is_empty());
        }
        let (response, _) = archive.get("/");
        assert_eq!((response.status, header(&response, "Location")), (302, Some("/a.txt")));
        if n == 0 {
            let (response, body) = archive.get("/dir/");
            assert_eq!((response.status, body), (200, b"<html>dir</html>".to_vec()));
        }
        let (response, _) = archive.get("/nothing");
        assert_eq!(response.status, 404);
    }
}

#[test]
fn ranges_of_a_stored_file() {
    let dir = tempfile::tempdir().unwrap();
    let outfile = dir.path().join("site.waj");
    write_archive(&site(), &outfile, jbk::creator::ConcatMode::OneFile);
    let archive = open_archive(&outfile).unwrap();
    let full: Vec<u8> = (0..=255u8).collect();
    let (response, body) = archive.answer(Method::Get, "/ref", &[("Range", "bytes=0-99")]);
    assert_eq!((response.status, body), (206, full[..100].to_vec()));
    let (response, body) = archive.answer(Method::Get, "/ref", &[("Range", "bytes=-100")]);
    assert_eq!((response.status, body), (206, full[156..].to_vec()));
    let (response, body) = archive.answer(Method::Get, "/ref", &[("Range", "bytes=1000-2000")]);
    assert_eq!((response.status, body), (416, vec![]));
    assert_eq!(header(&response, "Content-Range"), Some("bytes */256"));
    let (response, body) =
        archive.answer(Method::Get, "/data.bin", &[("Range", "bytes=65000-65999")]);
    let expected: Vec<u8> = (0..=255u8).cycle().skip(65000).take(1000).collect();
    assert_eq!((response.status, body), (206, expected));
}

#[test]
fn etag_is_made_of_the_uuid_of_the_archive() {
    let dir = tempfile::tempdir().unwrap();
    let outfile = dir.path().join("site.waj");
    write_archive(&site(), &outfile, jbk::creator::ConcatMode::OneFile);
    let archive = open_archive(&outfile).unwrap();
    let (first, _) = archive.get("/a.txt");
    let etag = header(&first, "ETag").unwrap().to_string();
    assert_eq!(etag, format!("W/\"{}\"", archive.container.uuid()));
    let (second, body) = archive.answer(Method::Get, "/a.txt", &[("If-None-Match", &etag)]);
    assert_eq!(second.status, 304);
    assert!(body.is_empty());
    let again = open_archive(&outfile).unwrap();
    assert_eq!(again.server.etag_value, etag);
}

#[test]
fn equal_contents_are_stored_once() {
    let dir = tempfile::tempdir().unwrap();
    let payload: Vec<u8> = {
        let mut seed: u32 = 7;
        (0..200_000)
            .map(|_| {
                seed = seed.wrapping_mul(1664525).wrapping_add(1013904223);
                (seed >> 24) as u8
            })
            .collect()
    };
    let once = Tree { files: vec![("a.bin", payload.clone())], links: vec![], main: None };
    let twice = Tree {
        files: vec![("a.bin", payload.clone()), ("b.bin", payload.clone())],
        links: vec![],
        main: None,
    };
    let one = dir.path().join("one.waj");
    let two = dir.path().join("two.waj");
    let written = write_archive(&once, &one, jbk::creator::ConcatMode::OneFile);
    assert_eq!((written.stored, written.cached), (1, 0));
    let written = write_archive(&twice, &two, jbk::creator::ConcatMode::OneFile);
    assert_eq!((written.stored, written.cached), (1, payload.len() as u64));
    let size_once = one.metadata().unwrap().len();
    let size_twice = two.metadata().unwrap().len();
    assert!(size_twice < 2 * payload.len() as u64);
    assert!(size_twice < size_once + payload.len() as u64 / 2);
    let archive = open_archive(&two).unwrap();
    assert_eq!(archive.get("/a.bin").1, payload);
    assert_eq!(archive.get("/b.bin").1, payload);
}

#[test]
fn missing_content_pack_is_answered_by_placeholders() {
    let dir = tempfile::tempdir().unwrap();
    let outfile = dir.path().join("site.waj");
    write_archive(&site(), &outfile, jbk::creator::ConcatMode::TwoFiles);
    assert!(outfile.with_extension("jbkc").is_file());
    let elsewhere = tempfile::tempdir().unwrap();
    let archive = open_archive_with_packs_in(&outfile, elsewhere.path()).unwrap();
    for url in ["/b.html", "/style.css"] {
        let (response, body) = archive.get(url);
        assert_eq!(response.status, 503, "{url}");
        assert_eq!(header(&response, "Content-Type"), Some("text/html"));
        assert_eq!(header(&response, "Cache-Control"), Some("max-age=0, no-cache"));
        assert!(String::from_utf8(body).unwrap().starts_with("<h1>Missing contentPack "));
    }
    for url in ["/a.txt", "/data.bin"] {
        let (response, body) = archive.get(url);
        assert_eq!(response.status, 253, "{url}");
        assert_eq!(header(&response, "Content-Type"), Some("image/svg+xml"));
        assert_eq!(header(&response, "Cache-Control"), Some("max-age=0, no-cache"));
        assert!(String::from_utf8(body).unwrap().contains("Missing pack"));
    }
    let (response, _) = archive.get("/link");
    assert_eq!(response.status, 302);
    let (response, _) = archive.get("/nothing");
    assert_eq!(response.status, 404);
}

#[test]
fn empty_archive_is_created_and_served() {
    let dir = tempfile::tempdir().unwrap();
    let outfile = dir.path().join("empty.waj");
    let tree = Tree { files: vec![], links: vec![], main: None };
    write_archive(&tree, &outfile, jbk::creator::ConcatMode::OneFile);
    assert!(outfile.is_file());
    let archive = open_archive(&outfile).unwrap();
    assert_eq!(archive.server.waj.len(), 0);
    for url in ["/", "/index.html", "/a/b", "/404.html"] {
        let (response, body) = archive.get(url);
        assert_eq!(response.status, 404, "{url}");
        assert!(body.is_empty());
    }
}

#[test]
fn a_container_without_entries_index_is_no_web_archive() {
    let dir = tempfile::tempdir().unwrap();
    let outfile = dir.path().join("other.jbk");
    let packer = jbk::creator::BasicCreator::new(
        outfile.to_str().unwrap(),
        jbk::creator::ConcatMode::OneFile,
        jbk::VendorId::from(waj::VENDOR_ID.to_be_bytes()),
        jbk::creator::Compression::default(),
        Arc::new(()),
    )
    .unwrap();
    let mut stores = Stores::new(FsCreator::new(StripPrefix::new(String::new())).finalize());
    stores.index_name = "other_entries";
    packer.finalize(Box::new(stores), vec![]).unwrap();
    let error = open_archive(&outfile).err().unwrap();
    assert_eq!(
        error.message(),
        "Jbk archive is not a valid Waj archive : No `waj_entries` in the archive"
    );
}
