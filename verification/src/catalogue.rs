//! Parsing one listing entry into structured metadata.
//!
//! Every property is extracted tolerantly: a missing or unreadable
//! property leaves its own field empty and never invalidates the entry
//! or the other fields.

use vstd::prelude::*;
use crate::text::{parse_u64, u64_from_decimal};
use crate::urls::{join_url, url_join_of, RemoteUrl};
use crate::xml::{elem_is, first_child, XmlElement};

verus! {

/// Metadata of one remote resource, as one listing entry reports it.
#[derive(Debug)]
pub struct CatalogueInfo {
    /// Resolved absolute location: the base joined with the reported
    /// name, or the base itself where the join fails.
    pub url: RemoteUrl,
    /// Name as reported by the server's href, `.` if absent.
    pub name: String,
    /// Byte count, where reported and readable.
    pub size: Option<u64>,
    /// Modification instant in microseconds since the Unix epoch,
    /// where reported and recognisable.
    pub date: Option<i64>,
    /// Content type, where reported.
    pub file_type: Option<String>,
}

/// A listing-entry element: a `response` tag in the DAV namespace.
pub open spec fn is_entry_elem(e: XmlElement) -> bool {
    elem_is(e, "response"@, "DAV:"@)
}

/// The name a listing entry reports: its href text, or "." if absent.
pub open spec fn entry_name_of(e: XmlElement) -> Seq<char> {
    match first_child(e.children@, "href"@, "DAV:"@) {
        Some(h) => h.text@,
        None => "."@,
    }
}

/// Text of one property, nested under the entry's status and property
/// wrappers; nothing where any level is missing.
pub open spec fn entry_prop_text(e: XmlElement, prop: Seq<char>) -> Option<Seq<char>> {
    match first_child(e.children@, "propstat"@, "DAV:"@) {
        Some(ps) => match first_child(ps.children@, "prop"@, "DAV:"@) {
            Some(pr) => match first_child(pr.children@, prop, "DAV:"@) {
                Some(node) => Some(node.text@),
                None => None,
            },
            None => None,
        },
        None => None,
    }
}

/// The size a listing entry reports, where present and decimal.
pub open spec fn entry_size_of(e: XmlElement) -> Option<u64> {
    match entry_prop_text(e, "getcontentlength"@) {
        Some(t) => u64_from_decimal(t),
        None => None,
    }
}

/// The entry's location: the base joined with the reported name, the
/// base itself where the join fails.
pub open spec fn entry_url_ok(base: RemoteUrl, name: Seq<char>, u: RemoteUrl) -> bool {
    match url_join_of(base.text@, name) {
        Some(v) => u@ == v,
        None => u@ == base@,
    }
}

/// `info` is the parse of listing entry `e` against `base`.
///
/// The modification instant is pinned only where the property is
/// absent: recognising its text is the date parser's business, and for
/// some input shapes that answer depends on the machine's clock.
pub open spec fn is_parse_of(base: RemoteUrl, e: XmlElement, info: CatalogueInfo) -> bool {
    &&& info.name@ == entry_name_of(e)
    &&& entry_url_ok(base, entry_name_of(e), info.url)
    &&& info.size == entry_size_of(e)
    &&& (entry_prop_text(e, "getlastmodified"@) is None ==> info.date is None)
    &&& (match entry_prop_text(e, "getcontenttype"@) {
        Some(t) => info.file_type matches Some(ft) && ft@ == t,
        None => info.file_type is None,
    })
}

/// Relies on dateparser's `DateTimeUtc: FromStr` to recognise a
/// modification timestamp, flattened by chrono's `timestamp_micros`.
/// For input shapes that omit a date or time part the answer depends on
/// this machine's clock and time zone, so nothing is claimed of it.
#[verifier::external_body]
fn parse_instant(s: &str) -> Option<i64> {
    match s.parse::<dateparser::DateTimeUtc>() {
        Ok(d) => Some(d.0.timestamp_micros()),
        Err(_) => None,
    }
}

/// The tolerant extraction shared by every property: the text of the
/// named property child, where it is present at all.
fn property_text(prop: &XmlElement, name: &str) -> (r: Option<String>)
    ensures
        match first_child(prop.children@, name@, "DAV:"@) {
            Some(node) => r matches Some(t) && t@ == node.text@,
            None => r is None,
        },
{
    match prop.get_child(name, "DAV:") {
        Some(node) => Some(node.text.clone()),
        None => None,
    }
}

impl CatalogueInfo {
    /// Parse one listing entry.  Partial data never fails the parse:
    /// each property is read independently and a missing or unreadable
    /// one only leaves its own field empty.
    pub fn new(base: &RemoteUrl, response: &XmlElement) -> (info: CatalogueInfo)
        ensures
            is_parse_of(*base, *response, info),
    {
        let name: String = match response.get_child("href", "DAV:") {
            Some(h) => h.text.clone(),
            None => String::from_str("."),
        };
        let url: RemoteUrl = match join_url(base, name.as_str()) {
            Some(u) => u,
            None => base.clone(),
        };
        let mut size: Option<u64> = None;
        let mut date: Option<i64> = None;
        let mut file_type: Option<String> = None;
        if let Some(propstat) = response.get_child("propstat", "DAV:") {
            if let Some(prop) = propstat.get_child("prop", "DAV:") {
                size = match property_text(prop, "getcontentlength") {
                    Some(t) => parse_u64(t.as_str()),
                    None => None,
                };
                date = match property_text(prop, "getlastmodified") {
                    Some(t) => parse_instant(t.as_str()),
                    None => None,
                };
                file_type = property_text(prop, "getcontenttype");
            }
        }
        CatalogueInfo { url, name, size, date, file_type }
    }
}

} // verus!
