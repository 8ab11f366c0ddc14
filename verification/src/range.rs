//! HTTP byte ranges: what a `Range` header asks for and which part of a
//! resource answers it.

use vstd::prelude::*;

verus! {

/// Where a requested range begins.
#[derive(Clone, Copy, Debug, PartialEq, Eq, Structural)]
pub enum RangeStart {
    /// At this offset from the first byte.
    Index(u64),
    /// This many bytes before the end.
    FromLast(u64),
}

/// Where a requested range ends.
#[derive(Clone, Copy, Debug, PartialEq, Eq, Structural)]
pub enum RangeEnd {
    /// At this offset, inclusive.
    Index(u64),
    /// At the last byte of the resource.
    LastByte,
}

/// One range of a `Range` header, as written: not yet held against a size.
#[derive(Clone, Copy, Debug, PartialEq, Eq, Structural)]
pub struct RangeSpec {
    pub start: RangeStart,
    pub end: RangeEnd,
}

/// The ranges that the value of a `Range` header spells out, or `None` where
/// the value is not a well-formed `bytes=` range set. This is the syntax as
/// the `http_range_header` crate reads it.
pub uninterp spec fn range_header_syntax(value: Seq<char>) -> Option<Seq<RangeSpec>>;

/// The offset of the last byte of a resource of `size` bytes (0 for an empty
/// one).
pub open spec fn last_offset(size: u64) -> int {
    if size == 0 {
        0
    } else {
        size - 1
    }
}

/// The first offset that `r` covers in a resource of `size` bytes.
pub open spec fn resolved_start(r: RangeSpec, size: u64) -> int {
    match r.start {
        RangeStart::Index(i) => i as int,
        RangeStart::FromLast(n) => size - n,
    }
}

/// The last offset that `r` covers in a resource of `size` bytes: a range
/// that runs past the end is cut at the end.
pub open spec fn resolved_end(r: RangeSpec, size: u64) -> int {
    match r.end {
        RangeEnd::Index(i) => if i <= last_offset(size) {
            i as int
        } else {
            last_offset(size)
        },
        RangeEnd::LastByte => last_offset(size),
    }
}

/// A suffix range must not ask for more bytes than there are.
pub open spec fn suffix_fits(r: RangeSpec, size: u64) -> bool {
    r.start matches RangeStart::FromLast(n) ==> n <= size
}

/// Whether a set of ranges can be served from a resource of `size` bytes:
/// every suffix fits, no range ends before it starts, and no two ranges
/// share a byte.
pub open spec fn satisfiable(ranges: Seq<RangeSpec>, size: u64) -> bool {
    &&& forall|i: int| 0 <= i < ranges.len() ==> suffix_fits(#[trigger] ranges[i], size)
    &&& forall|i: int|
        0 <= i < ranges.len() ==> resolved_start(#[trigger] ranges[i], size) <= resolved_end(
            ranges[i],
            size,
        )
    &&& forall|i: int, j: int|
        0 <= i < j < ranges.len() ==> !(resolved_start(#[trigger] ranges[i], size) <= resolved_end(
            #[trigger] ranges[j],
            size,
        ) && resolved_start(ranges[j], size) <= resolved_end(ranges[i], size))
}

/// The inclusive offsets that each range covers in a resource of `size`
/// bytes.
pub open spec fn resolved(ranges: Seq<RangeSpec>, size: u64) -> Seq<(u64, u64)> {
    Seq::new(
        ranges.len(),
        |i: int| (resolved_start(ranges[i], size) as u64, resolved_end(ranges[i], size) as u64),
    )
}

/// Reads the value of a `Range` header.
///
/// Calls `http_range_header::parse_range_header` and copies the ranges it
/// found, variant by variant. The contract only names the outcome.
#[verifier::external_body]
pub(crate) fn parse_range_header(value: &str) -> (parsed: Option<Vec<RangeSpec>>)
    ensures
        parsed is Some <==> range_header_syntax(value@) is Some,
        parsed matches Some(v) ==> range_header_syntax(value@) == Some(v@),
{
    let parsed = http_range_header::parse_range_header(value).ok()?;
    Some(parsed.ranges.iter().map(|r| RangeSpec {
        start: match r.start {
            http_range_header::StartPosition::Index(i) => RangeStart::Index(i),
            http_range_header::StartPosition::FromLast(n) => RangeStart::FromLast(n),
        },
        end: match r.end {
            http_range_header::EndPosition::Index(i) => RangeEnd::Index(i),
            http_range_header::EndPosition::LastByte => RangeEnd::LastByte,
        },
    }).collect())
}

/// Holds parsed ranges against the size of a resource.
///
/// Calls `http_range_header::ParsedRanges::validate`. It resolves each range
/// to inclusive offsets, cutting an end that runs past the last byte, and
/// fails where a suffix is longer than the resource, a range is reversed, or
/// two ranges overlap.
#[verifier::external_body]
pub(crate) fn validate_ranges(ranges: &Vec<RangeSpec>, size: u64) -> (valid: Option<
    Vec<(u64, u64)>,
>)
    ensures
        valid is Some <==> satisfiable(ranges@, size),
        valid matches Some(v) ==> v@ == resolved(ranges@, size),
{
    let ranges = ranges.iter().map(|r| http_range_header::SyntacticallyCorrectRange {
        start: match r.start {
            RangeStart::Index(i) => http_range_header::StartPosition::Index(i),
            RangeStart::FromLast(n) => http_range_header::StartPosition::FromLast(n),
        },
        end: match r.end {
            RangeEnd::Index(i) => http_range_header::EndPosition::Index(i),
            RangeEnd::LastByte => http_range_header::EndPosition::LastByte,
        },
    }).collect();
    let valid = http_range_header::ParsedRanges { ranges }.validate(size).ok()?;
    Some(valid.iter().map(|r| (*r.start(), *r.end())).collect())
}

/// What a request's `Range` header comes to for one resource.
#[derive(Clone, Copy, Debug, PartialEq, Eq, Structural)]
pub enum RangeOutcome {
    /// No range applies: the resource is served in full.
    Whole,
    /// One range, given by its first and last offset.
    Single { start: u64, end: u64 },
    /// Several ranges, each servable; a multipart answer would be needed.
    Several,
    /// The ranges cannot be served from this resource.
    Unsatisfiable,
}

/// The outcome of a `Range` header whose syntax is `parsed`, for a resource
/// of `size` bytes. A header that does not parse is ignored. A single range
/// counts only if it lies inside the resource.
pub open spec fn range_outcome_spec(parsed: Option<Seq<RangeSpec>>, size: u64) -> RangeOutcome {
    match parsed {
        None => RangeOutcome::Whole,
        Some(ranges) => if !satisfiable(ranges, size) {
            RangeOutcome::Unsatisfiable
        } else if ranges.len() != 1 {
            RangeOutcome::Several
        } else if resolved_end(ranges[0], size) >= size {
            RangeOutcome::Unsatisfiable
        } else {
            RangeOutcome::Single {
                start: resolved_start(ranges[0], size) as u64,
                end: resolved_end(ranges[0], size) as u64,
            }
        },
    }
}

/// Decides what the parsed ranges of a request come to for a resource of
/// `size` bytes.
pub fn range_outcome(parsed: &Option<Vec<RangeSpec>>, size: u64) -> (outcome: RangeOutcome)
    ensures
        outcome == range_outcome_spec(
            match parsed {
                Some(v) => Some(v@),
                None => None,
            },
            size,
        ),
        outcome matches RangeOutcome::Single { start, end } ==> start <= end < size,
{
    match parsed {
        None => RangeOutcome::Whole,
        Some(ranges) => {
            match validate_ranges(ranges, size) {
                None => RangeOutcome::Unsatisfiable,
                Some(valid) => {
                    if valid.len() != 1 {
                        RangeOutcome::Several
                    } else {
                        let (start, end) = valid[0];
                        assert(ranges@.len() == 1);
                        assert(suffix_fits(ranges@[0], size));
                        assert(resolved_start(ranges@[0], size) <= resolved_end(ranges@[0], size));
                        if end >= size {
                            RangeOutcome::Unsatisfiable
                        } else {
                            RangeOutcome::Single { start, end }
                        }
                    }
                },
            }
        },
    }
}

/// Decides what the `Range` header `value` of a request comes to for a
/// resource of `size` bytes.
pub fn requested_range(value: &str, size: u64) -> (outcome: RangeOutcome)
    ensures
        outcome == range_outcome_spec(range_header_syntax(value@), size),
        outcome matches RangeOutcome::Single { start, end } ==> start <= end < size,
{
    let parsed = parse_range_header(value);
    range_outcome(&parsed, size)
}

} // verus!
