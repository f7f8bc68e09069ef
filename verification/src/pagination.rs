//! Keyset pagination: building the fixed query of each page request, and
//! reading the next-page cursor out of a response's `link` header.

use vstd::prelude::*;

use crate::error::SyncError;
use crate::numbers::{all_digits, dec_str, dec_value, parse_u64, u64_to_dec};

verus! {

/// The cursor threading page requests together: the largest id seen so far,
/// an exclusive lower bound for the next page.
#[derive(Debug, Clone, Copy, PartialEq, Eq, Structural)]
pub struct PaginationInfo {
    pub id_after: u64,
}

/// The `id_after` query value of the link tagged `next` in a `link` header,
/// or none when the header has no well-formed `next` relation.
pub uninterp spec fn next_id_after_of(header: Seq<char>) -> Option<Seq<char>>;

/// Relies on `parse_link_header::parse_with_rel`: the entry keyed `next` of
/// the returned map, and the `id_after` entry of that link's parsed query,
/// are a function of the header text alone; a header it cannot parse is
/// treated as carrying no `next` relation.
#[verifier::external_body]
fn link_next_id_after(header: &str) -> (r: Option<String>)
    ensures
        r matches Some(s) ==> next_id_after_of(header@) == Some(s@),
        r is None ==> next_id_after_of(header@) is None,
{
    let links = match parse_link_header::parse_with_rel(header) {
        Ok(links) => links,
        Err(_) => return None,
    };
    let next = links.get("next")?;
    next.queries.get("id_after").cloned()
}

/// What a `link` header (or its absence) says about the next page: no cursor
/// when pagination ends here, the numeric cursor of the `next` relation, or a
/// protocol error when that cursor is not a number that fits.
pub open spec fn spec_next_cursor(header: Option<Seq<char>>) -> Result<
    Option<PaginationInfo>,
    SyncError,
> {
    match header {
        None => Ok(None),
        Some(h) => match next_id_after_of(h) {
            None => Ok(None),
            Some(raw) => if raw.len() > 0 && all_digits(raw) && dec_value(raw) <= u64::MAX {
                Ok(Some(PaginationInfo { id_after: dec_value(raw) as u64 }))
            } else {
                Err(SyncError::Protocol)
            },
        },
    }
}

/// Reads the cursor for the page after this one out of a response's `link`
/// header.  A missing header or a header without a `next` relation means the
/// final page; a `next` relation whose `id_after` is not a decimal number in
/// range is a protocol error, never a silent end of pagination.
pub fn get_next_page_info(header: Option<&str>) -> (r: Result<Option<PaginationInfo>, SyncError>)
    ensures
        r == spec_next_cursor(match header {
            Some(h) => Some(h@),
            None => None,
        }),
{
    let h = match header {
        Some(h) => h,
        None => {
            return Ok(None);
        },
    };
    let raw = match link_next_id_after(h) {
        Some(raw) => raw,
        None => {
            return Ok(None);
        },
    };
    match parse_u64(raw.as_str()) {
        Some(n) => Ok(Some(PaginationInfo { id_after: n })),
        None => Err(SyncError::Protocol),
    }
}

/// A numeric cursor taken from one response propagates intact into the next
/// request: when a `link` header's `next` relation encodes a decimal
/// `id_after` that fits, reading the header yields exactly that cursor, and
/// the `id_after` numeral the next request carries denotes the same number.
pub proof fn lemma_cursor_propagation(header: Seq<char>, raw: Seq<char>)
    requires
        next_id_after_of(header) == Some(raw),
        raw.len() > 0,
        all_digits(raw),
        dec_value(raw) <= u64::MAX,
    ensures
        spec_next_cursor(Some(header)) == Ok::<Option<PaginationInfo>, SyncError>(
            Some(PaginationInfo { id_after: dec_value(raw) as u64 }),
        ),
        dec_value(dec_str(dec_value(raw))) == dec_value(raw),
{
    crate::numbers::lemma_dec_round_trip(dec_value(raw));
}

/// The query parameters of one page request, in a fixed order.  Every page
/// asks for keyset pagination in ascending id order, one hundred records, and
/// membership scope; all but the first carry the cursor as `id_after`.
pub fn page_query_params(cursor: Option<&PaginationInfo>) -> (r: Vec<(String, String)>)
    ensures
        r@.len() == (if cursor is Some { 6int } else { 5int }),
        r@[0].0@ == "pagination"@ && r@[0].1@ == "keyset"@,
        r@[1].0@ == "order_by"@ && r@[1].1@ == "id"@,
        r@[2].0@ == "sort"@ && r@[2].1@ == "asc"@,
        r@[3].0@ == "per_page"@ && r@[3].1@ == "100"@,
        r@[4].0@ == "membership"@ && r@[4].1@ == "true"@,
        cursor matches Some(c) ==> r@[5].0@ == "id_after"@ && r@[5].1@ == dec_str(
            c.id_after as nat,
        ),
{
    let mut params: Vec<(String, String)> = Vec::new();
    params.push((String::from_str("pagination"), String::from_str("keyset")));
    params.push((String::from_str("order_by"), String::from_str("id")));
    params.push((String::from_str("sort"), String::from_str("asc")));
    params.push((String::from_str("per_page"), String::from_str("100")));
    params.push((String::from_str("membership"), String::from_str("true")));
    if let Some(c) = cursor {
        params.push((String::from_str("id_after"), u64_to_dec(c.id_after)));
    }
    params
}

} // verus!
