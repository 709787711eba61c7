use corroded_dav::catalogue::CatalogueInfo;
use corroded_dav::filter::{FilterCriteria, FilterCriteriaError};
use corroded_dav::urls::{RemoteUrl, UrlHost};

fn plain_url(text: &str) -> RemoteUrl {
    RemoteUrl {
        text: text.to_string(),
        host: UrlHost::Domain("example.com".to_string()),
        path: "/".to_string(),
    }
}

fn entry(size: Option<u64>, date: Option<i64>, file_type: Option<&str>) -> CatalogueInfo {
    CatalogueInfo {
        url: plain_url("https://example.com/x"),
        name: "x".to_string(),
        size,
        date,
        file_type: file_type.map(|t| t.to_string()),
    }
}

#[test]
fn match_all_accepts_everything() {
    let f = FilterCriteria::match_all();
    assert!(f.matches(&entry(None, None, None)));
    assert!(f.matches(&entry(Some(0), None, None)));
    assert!(f.matches(&entry(Some(u64::MAX), Some(i64::MIN), Some("application/zip"))));
    assert!(f.matches(&entry(None, Some(1_700_000_000_000_000), Some(""))));
}

#[test]
fn size_window_is_inclusive() {
    let f = FilterCriteria::new("*", "13", "13", "*", "*").unwrap();
    assert!(f.matches(&entry(Some(13), None, None)));
    assert!(!f.matches(&entry(Some(12), None, None)));
    assert!(!f.matches(&entry(Some(14), None, None)));
}

#[test]
fn absent_size_passes_any_size_bound() {
    let f = FilterCriteria::new("*", "100", "200", "*", "*").unwrap();
    assert!(f.matches(&entry(None, None, None)));
    assert!(!f.matches(&entry(Some(99), None, None)));
    assert!(f.matches(&entry(Some(150), None, None)));
}

#[test]
fn missing_type_is_rejected_under_type_constraint() {
    let f = FilterCriteria::new("text/plain", "*", "*", "*", "*").unwrap();
    // Whatever the other fields hold, no content type means rejection.
    assert!(!f.matches(&entry(None, None, None)));
    assert!(!f.matches(&entry(Some(13), Some(1_500_000_000_000_000), None)));
}

#[test]
fn type_check_is_substring_containment() {
    let f = FilterCriteria::new("text/plain", "*", "*", "*", "*").unwrap();
    assert!(f.matches(&entry(None, None, Some("text/plain"))));
    assert!(f.matches(&entry(None, None, Some("text/plain; charset=utf-8"))));
    assert!(!f.matches(&entry(None, None, Some("text/html"))));
    // Containment is case-sensitive and not anchored.
    assert!(!f.matches(&entry(None, None, Some("TEXT/PLAIN"))));
    assert!(f.matches(&entry(None, None, Some("xtext/plainx"))));
}

#[test]
fn empty_type_constraint_matches_any_reported_type() {
    let f = FilterCriteria::new("", "*", "*", "*", "*").unwrap();
    assert!(f.matches(&entry(None, None, Some("anything"))));
    assert!(!f.matches(&entry(None, None, None)));
}

#[test]
fn time_window_uses_parsed_bounds() {
    let f = FilterCriteria::new(
        "*",
        "*",
        "*",
        "2019-01-01T00:00:00+00:00",
        "2019-12-31T00:00:00+00:00",
    )
    .unwrap();
    // 2019-06-01T00:00:00Z in microseconds since the epoch.
    let mid_2019: i64 = 1_559_347_200_000_000;
    // 2018-06-01T00:00:00Z.
    let mid_2018: i64 = 1_527_811_200_000_000;
    // 2020-06-01T00:00:00Z.
    let mid_2020: i64 = 1_590_969_600_000_000;
    assert!(f.matches(&entry(None, Some(mid_2019), None)));
    assert!(!f.matches(&entry(None, Some(mid_2018), None)));
    assert!(!f.matches(&entry(None, Some(mid_2020), None)));
    // An entry without a date is unaffected by time bounds.
    assert!(f.matches(&entry(None, None, None)));
}

#[test]
fn wildcard_everywhere_builds_match_all() {
    let f = FilterCriteria::new("*", "*", "*", "*", "*").unwrap();
    assert!(f.matches(&entry(Some(7), Some(0), Some("x"))));
    assert!(f.matches(&entry(None, None, None)));
}

#[test]
fn construction_fails_on_first_bad_field() {
    let e = FilterCriteria::new("*", "abc", "9", "nope", "*").unwrap_err();
    assert_eq!(e, FilterCriteriaError::ParseError("min_size".to_string()));
    let e = FilterCriteria::new("*", "9", "abc", "nope", "*").unwrap_err();
    assert_eq!(e, FilterCriteriaError::ParseError("max_size".to_string()));
    let e = FilterCriteria::new("*", "9", "9", "nope", "*").unwrap_err();
    assert_eq!(
        e,
        FilterCriteriaError::ParseError("earliest_modification".to_string())
    );
    let e = FilterCriteria::new("*", "9", "9", "*", "nope").unwrap_err();
    assert_eq!(
        e,
        FilterCriteriaError::ParseError("latest_modification".to_string())
    );
}

#[test]
fn size_bounds_parse_like_u64() {
    // The full u64 range is accepted, one past it is not.
    assert!(FilterCriteria::new("*", "18446744073709551615", "*", "*", "*").is_ok());
    assert!(FilterCriteria::new("*", "18446744073709551616", "*", "*", "*").is_err());
    // A leading plus sign is accepted, other decorations are not.
    assert!(FilterCriteria::new("*", "+5", "*", "*", "*").is_ok());
    assert!(FilterCriteria::new("*", "", "*", "*", "*").is_err());
    assert!(FilterCriteria::new("*", " 5", "*", "*", "*").is_err());
    assert!(FilterCriteria::new("*", "-1", "*", "*", "*").is_err());
    assert!(FilterCriteria::new("*", "5.0", "*", "*", "*").is_err());
}

#[test]
fn filter_error_describes_the_field() {
    let e = FilterCriteria::new("*", "x", "*", "*", "*").unwrap_err();
    assert_eq!(e.describe(), "unparseable filter field: min_size");
}
