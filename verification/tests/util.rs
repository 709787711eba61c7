use corroded_dav::paths::base_name;
use corroded_dav::text::{parse_u64, str_contains, str_eq};
use corroded_dav::urls::{RemoteUrl, UrlHost};

fn with_path(path: &str) -> RemoteUrl {
    RemoteUrl {
        text: format!("https://h.example{path}"),
        host: UrlHost::Domain("h.example".to_string()),
        path: path.to_string(),
    }
}

#[test]
fn u64_parsing_follows_std() {
    assert_eq!(parse_u64("0"), Some(0));
    assert_eq!(parse_u64("13"), Some(13));
    assert_eq!(parse_u64("+13"), Some(13));
    assert_eq!(parse_u64("18446744073709551615"), Some(u64::MAX));
    assert_eq!(parse_u64("18446744073709551616"), None);
    assert_eq!(parse_u64("99999999999999999999999"), None);
    assert_eq!(parse_u64(""), None);
    assert_eq!(parse_u64("+"), None);
    assert_eq!(parse_u64("-1"), None);
    assert_eq!(parse_u64("1 "), None);
    assert_eq!(parse_u64("1_000"), None);
    assert_eq!(parse_u64("0013"), Some(13));
}

#[test]
fn containment_is_plain_substring_search() {
    assert!(str_contains("text/plain; charset=utf-8", "text/plain"));
    assert!(str_contains("abc", ""));
    assert!(str_contains("", ""));
    assert!(!str_contains("", "a"));
    assert!(str_contains("aaab", "aab"));
    assert!(!str_contains("acac", "aca".repeat(2).as_str()));
    assert!(str_contains("naïve déjà", "ïve d"));
}

#[test]
fn string_equality_is_by_characters() {
    assert!(str_eq("abc", "abc"));
    assert!(!str_eq("abc", "abd"));
    assert!(!str_eq("abc", "ab"));
    assert!(str_eq("", ""));
    assert!(str_eq("déjà", "déjà"));
}

#[test]
fn base_names_of_local_paths() {
    assert_eq!(base_name("/a/b/file.txt"), Some("file.txt".to_string()));
    assert_eq!(base_name("file.txt"), Some("file.txt".to_string()));
    assert_eq!(base_name("dir/sub/"), Some("sub".to_string()));
    assert_eq!(base_name("a//"), Some("a".to_string()));
    assert_eq!(base_name("tmp/foo.txt/."), Some("foo.txt".to_string()));
    assert_eq!(base_name("..."), Some("...".to_string()));
    assert_eq!(base_name("/"), None);
    assert_eq!(base_name(""), None);
    assert_eq!(base_name("."), None);
    assert_eq!(base_name(".."), None);
    assert_eq!(base_name("a/.."), None);
    assert_eq!(base_name("/."), None);
}

#[test]
fn url_filenames_come_from_the_last_segment() {
    assert_eq!(
        with_path("/a/notes.txt").url_filename(),
        Some("notes.txt".to_string())
    );
    // A collection path carries an empty filename.
    assert_eq!(with_path("/a/").url_filename(), Some("".to_string()));
    assert_eq!(with_path("/").url_filename(), Some("".to_string()));
    // A path without segments carries none.
    let opaque = RemoteUrl {
        text: "data:text/plain,x".to_string(),
        host: UrlHost::Absent,
        path: "text/plain,x".to_string(),
    };
    assert_eq!(opaque.url_filename(), None);
}

#[test]
fn collection_shape_is_a_trailing_separator() {
    assert!(with_path("/a/").is_collection_shaped());
    assert!(!with_path("/a").is_collection_shaped());
    assert!(!with_path("").is_collection_shaped());
}
