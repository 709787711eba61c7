//! Declarative filters over catalogue entries.
//!
//! A filter constrains the content type (by substring), the size and
//! the modification instant.  Size and time checks only apply to
//! entries that report the property; a type constraint, by contrast,
//! rejects entries that report no type at all.

use vstd::prelude::*;
use crate::catalogue::CatalogueInfo;
use crate::text::{contains_seq, parse_u64, str_contains, str_eq, u64_from_decimal};

verus! {

/// Why a filter could not be built: a field's text failed to parse.
/// The payload names the offending field.
#[derive(Debug, PartialEq, Eq)]
pub enum FilterCriteriaError {
    ParseError(String),
}

impl FilterCriteriaError {
    /// A short human-readable account of the error.
    pub fn describe(&self) -> (r: String)
        ensures
            match self {
                FilterCriteriaError::ParseError(f) => r@ == "unparseable filter field: "@ + f@,
            },
    {
        match self {
            FilterCriteriaError::ParseError(f) => {
                let mut s = String::from_str("unparseable filter field: ");
                s.append(f.as_str());
                s
            },
        }
    }
}

/// An immutable predicate over catalogue entries.
#[derive(Debug)]
pub struct FilterCriteria {
    /// Substring the content type must contain.
    pub file_type: Option<String>,
    /// Inclusive lower bound on the size.
    pub min_size: Option<u64>,
    /// Inclusive upper bound on the size.
    pub max_size: Option<u64>,
    /// Inclusive lower bound on the modification instant,
    /// microseconds since the Unix epoch.
    pub earliest_modification: Option<i64>,
    /// Inclusive upper bound on the modification instant.
    pub latest_modification: Option<i64>,
}

/// What chrono's `DateTime<Utc>: FromStr` yields on `s`, flattened to
/// microseconds since the Unix epoch; nothing where `s` is not a
/// timestamp in the RFC 3339 style that parse accepts.
pub uninterp spec fn bound_instant_of(s: Seq<char>) -> Option<i64>;

/// Relies on chrono's `DateTime<Utc>: FromStr`, an RFC 3339-style
/// parse that is a function of the string alone, and on
/// `timestamp_micros` to flatten the result.
#[verifier::external_body]
fn parse_bound_instant(s: &str) -> (r: Option<i64>)
    ensures
        r == bound_instant_of(s@),
{
    match s.parse::<chrono::DateTime<chrono::Utc>>() {
        Ok(d) => Some(d.timestamp_micros()),
        Err(_) => None,
    }
}

/// The unconstrained sentinel.
pub open spec fn wildcard(s: Seq<char>) -> bool {
    s == "*"@
}

/// How a size bound is read: no bound for the sentinel, the parsed
/// value for a decimal literal, nothing where the text parses as
/// neither.
pub open spec fn size_bound_of(s: Seq<char>) -> Option<Option<u64>> {
    if wildcard(s) {
        Some(None)
    } else {
        match u64_from_decimal(s) {
            Some(v) => Some(Some(v)),
            None => None,
        }
    }
}

/// How a time bound is read, under the same convention.
pub open spec fn time_bound_of(s: Seq<char>) -> Option<Option<i64>> {
    if wildcard(s) {
        Some(None)
    } else {
        match bound_instant_of(s) {
            Some(v) => Some(Some(v)),
            None => None,
        }
    }
}

/// The entry's size lies within the filter's bounds; entries without a
/// size are never rejected on size.
pub open spec fn size_admitted(f: FilterCriteria, size: Option<u64>) -> bool {
    match size {
        Some(s) => (match f.max_size {
            Some(hi) => s <= hi,
            None => true,
        }) && (match f.min_size {
            Some(lo) => lo <= s,
            None => true,
        }),
        None => true,
    }
}

/// The entry's modification instant lies within the filter's bounds;
/// entries without one are never rejected on time.
pub open spec fn time_admitted(f: FilterCriteria, date: Option<i64>) -> bool {
    match date {
        Some(d) => (match f.earliest_modification {
            Some(lo) => lo <= d,
            None => true,
        }) && (match f.latest_modification {
            Some(hi) => d <= hi,
            None => true,
        }),
        None => true,
    }
}

/// The entry's content type contains the constraint as a substring;
/// with a constraint set, an entry without a type is rejected.
pub open spec fn type_admitted(f: FilterCriteria, file_type: Option<String>) -> bool {
    match f.file_type {
        Some(pat) => match file_type {
            Some(t) => contains_seq(t@, pat@),
            None => false,
        },
        None => true,
    }
}

/// The whole predicate: all three checks must pass.
pub open spec fn matches_spec(f: FilterCriteria, e: CatalogueInfo) -> bool {
    size_admitted(f, e.size) && time_admitted(f, e.date) && type_admitted(f, e.file_type)
}

/// A filter with every field unconstrained.
pub open spec fn is_match_all(f: FilterCriteria) -> bool {
    f.file_type is None && f.min_size is None && f.max_size is None && f.earliest_modification
        is None && f.latest_modification is None
}

impl FilterCriteria {
    /// Build a filter from textual field descriptions; `*` leaves a
    /// field unconstrained.  Construction fails fast on the first
    /// unreadable field, named in the error.
    pub fn new(
        file_type_desc: &str,
        min_size_desc: &str,
        max_size_desc: &str,
        earliest_modification_desc: &str,
        latest_modification_desc: &str,
    ) -> (r: Result<FilterCriteria, FilterCriteriaError>)
        ensures
            match r {
                Ok(f) => {
                    &&& (if wildcard(file_type_desc@) {
                        f.file_type is None
                    } else {
                        f.file_type matches Some(t) && t@ == file_type_desc@
                    })
                    &&& size_bound_of(min_size_desc@) == Some(f.min_size)
                    &&& size_bound_of(max_size_desc@) == Some(f.max_size)
                    &&& time_bound_of(earliest_modification_desc@) == Some(
                        f.earliest_modification,
                    )
                    &&& time_bound_of(latest_modification_desc@) == Some(f.latest_modification)
                },
                Err(e) => e matches FilterCriteriaError::ParseError(field) && (if size_bound_of(
                    min_size_desc@,
                ) is None {
                    field@ == "min_size"@
                } else if size_bound_of(max_size_desc@) is None {
                    field@ == "max_size"@
                } else if time_bound_of(earliest_modification_desc@) is None {
                    field@ == "earliest_modification"@
                } else if time_bound_of(latest_modification_desc@) is None {
                    field@ == "latest_modification"@
                } else {
                    false
                }),
            },
    {
        let file_type = if str_eq(file_type_desc, "*") {
            None
        } else {
            Some(file_type_desc.to_owned())
        };
        let min_size = if str_eq(min_size_desc, "*") {
            None
        } else {
            match parse_u64(min_size_desc) {
                Some(v) => Some(v),
                None => {
                    return Err(FilterCriteriaError::ParseError(String::from_str("min_size")));
                },
            }
        };
        let max_size = if str_eq(max_size_desc, "*") {
            None
        } else {
            match parse_u64(max_size_desc) {
                Some(v) => Some(v),
                None => {
                    return Err(FilterCriteriaError::ParseError(String::from_str("max_size")));
                },
            }
        };
        let earliest_modification = if str_eq(earliest_modification_desc, "*") {
            None
        } else {
            match parse_bound_instant(earliest_modification_desc) {
                Some(v) => Some(v),
                None => {
                    return Err(
                        FilterCriteriaError::ParseError(
                            String::from_str("earliest_modification"),
                        ),
                    );
                },
            }
        };
        let latest_modification = if str_eq(latest_modification_desc, "*") {
            None
        } else {
            match parse_bound_instant(latest_modification_desc) {
                Some(v) => Some(v),
                None => {
                    return Err(
                        FilterCriteriaError::ParseError(String::from_str("latest_modification")),
                    );
                },
            }
        };
        Ok(
            FilterCriteria {
                file_type,
                min_size,
                max_size,
                earliest_modification,
                latest_modification,
            },
        )
    }

    /// The distinguished no-constraint filter.
    pub fn match_all() -> (r: FilterCriteria)
        ensures
            is_match_all(r),
    {
        FilterCriteria {
            file_type: None,
            min_size: None,
            max_size: None,
            earliest_modification: None,
            latest_modification: None,
        }
    }

    /// Whether the entry passes all three checks.
    pub fn matches(&self, attrs: &CatalogueInfo) -> (r: bool)
        ensures
            r == matches_spec(*self, *attrs),
    {
        if let Some(size) = attrs.size {
            let over = match self.max_size {
                Some(hi) => size > hi,
                None => false,
            };
            if over {
                return false;
            }
            let under = match self.min_size {
                Some(lo) => size < lo,
                None => false,
            };
            if under {
                return false;
            }
        }
        if let Some(date) = attrs.date {
            let early = match self.earliest_modification {
                Some(lo) => date < lo,
                None => false,
            };
            if early {
                return false;
            }
            let late = match self.latest_modification {
                Some(hi) => date > hi,
                None => false,
            };
            if late {
                return false;
            }
        }
        if let Some(pattern) = &self.file_type {
            return match &attrs.file_type {
                Some(t) => str_contains(t.as_str(), pattern.as_str()),
                None => false,
            };
        }
        true
    }
}

/// Law: the no-constraint filter accepts every entry, whatever its
/// size, time or type.
pub proof fn lemma_match_all_accepts(f: FilterCriteria, e: CatalogueInfo)
    requires
        is_match_all(f),
    ensures
        matches_spec(f, e),
{
}

/// Law: under a filter that only bounds the size, an entry that
/// reports size `s` is accepted exactly when `lo <= s <= hi`.
pub proof fn lemma_size_window(f: FilterCriteria, e: CatalogueInfo, s: u64, lo: u64, hi: u64)
    requires
        f.min_size == Some(lo),
        f.max_size == Some(hi),
        f.file_type is None,
        f.earliest_modification is None,
        f.latest_modification is None,
        e.size == Some(s),
    ensures
        matches_spec(f, e) <==> (lo <= s && s <= hi),
{
}

/// Law: an entry that reports no size is never rejected on size; only
/// the time and type checks decide.
pub proof fn lemma_absent_size_not_rejected(f: FilterCriteria, e: CatalogueInfo)
    requires
        e.size is None,
    ensures
        matches_spec(f, e) == (time_admitted(f, e.date) && type_admitted(f, e.file_type)),
{
}

/// Law: with a type constraint set, an entry that reports no content
/// type is rejected, whatever its other fields.
pub proof fn lemma_type_constraint_needs_type(f: FilterCriteria, e: CatalogueInfo)
    requires
        f.file_type is Some,
        e.file_type is None,
    ensures
        !matches_spec(f, e),
{
}

} // verus!
