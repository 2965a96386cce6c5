use symphony::path::{join_path, normalize_path, path_is_within, paths_equal, split_path};
use symphony::text::{
    chars_of, char_is_white_space, comes_before, eq_ignore_ascii_case, find_text, is_blank_text,
    shorten, split_list, with_unix_newlines,
};
use symphony::time::Timestamp;

#[test]
fn splits_lists_at_commas() {
    assert_eq!(split_list(" a, b c ,,\u{3000}, d"), vec!["a", "b c", "d"]);
    assert!(split_list(" , ").is_empty());
}

#[test]
fn knows_white_space() {
    for n in 0..=0x10ffffu32 {
        if let Some(c) = char::from_u32(n) {
            assert_eq!(char_is_white_space(c), c.is_whitespace());
        }
    }
    assert!(is_blank_text("\u{2003}\t\n"));
    assert!(!is_blank_text(" x "));
}

#[test]
fn compares_texts() {
    assert!(eq_ignore_ascii_case("BloCKS", "blocks"));
    assert!(!eq_ignore_ascii_case("blöcke", "BLÖCKE"));
    for (a, b) in [("a", "b"), ("ABC-1", "ABC-10"), ("", "a"), ("z", "é"), ("x", "x")] {
        assert_eq!(comes_before(a, b), a < b);
        assert_eq!(comes_before(b, a), b < a);
    }
}

#[test]
fn finds_the_first_occurrence() {
    let text = chars_of("one two two");
    assert_eq!(find_text(&text, &chars_of("two")), Some(4));
    assert_eq!(find_text(&text, &chars_of("three")), None);
    assert_eq!(find_text(&text, &chars_of("")), Some(0));
}

#[test]
fn takes_carriage_returns_out_before_line_feeds() {
    let text: String = with_unix_newlines(&chars_of("a\r\nb\rc\r\r\n")).into_iter().collect();
    assert_eq!(text, "a\nb\rc\r\n");
}

#[test]
fn shortens_texts() {
    assert_eq!(shorten("abcdef", 3), "abc...");
    assert_eq!(shorten("abc", 3), "abc");
}

#[test]
fn normalizes_paths() {
    assert_eq!(normalize_path("a/./b//../c", "/work"), "/work/a/c");
    assert_eq!(normalize_path("/../x/..", "/work"), "/");
    assert_eq!(normalize_path("../..", "/work/deep/er"), "/work");
    assert_eq!(split_path("/a//./b/.."), vec!["a", "b", ".."]);
    let once = normalize_path("x/../y", "/w");
    assert_eq!(normalize_path(&once, "/w"), once);
}

#[test]
fn joins_paths() {
    assert_eq!(join_path("/a", "b"), "/a/b");
    assert_eq!(join_path("/a/", "b"), "/a/b");
    assert_eq!(join_path("/a", "/b"), "/b");
    assert_eq!(join_path("", "b"), "b");
}

#[test]
fn compares_paths() {
    assert!(paths_equal("/a//b/", "/a/./b"));
    assert!(!paths_equal("./a", "a"));
    assert!(!paths_equal("/a", "a"));
    assert!(!paths_equal("/a", "/a/b"));
    for (a, b) in [("./a", "a"), ("a/.", "a"), ("/a/", "/a"), ("a/../b", "b"), (".", "")] {
        assert_eq!(paths_equal(a, b), std::path::Path::new(a) == std::path::Path::new(b));
    }
}

#[test]
fn tells_what_lies_within() {
    assert!(path_is_within("/tmp/root", "/tmp/root/x", "/"));
    assert!(path_is_within("/tmp/root", "/tmp/root", "/"));
    assert!(!path_is_within("/tmp/root", "/tmp/rootless", "/"));
    assert!(!path_is_within("/tmp/root", "/tmp/root/../other", "/"));
    assert!(path_is_within("root", "/tmp/root/x", "/tmp"));
}

#[test]
fn reads_and_writes_points_in_time() {
    let at = Timestamp::parse_rfc3339("2026-03-08T01:02:03.5+01:00").unwrap();
    assert_eq!(at.to_rfc3339_zulu(), "2026-03-08T00:02:03.500Z");
    assert_eq!(at.to_rfc3339(), "2026-03-08T00:02:03.500+00:00");
    assert_eq!(at.to_display(), "2026-03-08 00:02:03.500 UTC");
    assert_eq!(at.timestamp(), 1_772_928_123);
    assert_eq!(at.timestamp_subsec_nanos(), 500_000_000);
    assert_eq!(at.timestamp_millis(), 1_772_928_123_500);
    assert_eq!(Timestamp::parse_rfc3339("yesterday"), None);
    let same = Timestamp::new(1_772_928_123, 500_000_000).unwrap();
    assert_eq!(same, at);
}

#[test]
fn counts_milliseconds_between_points_in_time() {
    let start = Timestamp::new(100, 0).unwrap();
    let later = start.plus_millis(2_500);
    assert_eq!((later.timestamp(), later.timestamp_subsec_nanos()), (102, 500_000_000));
    assert_eq!(later.millis_since(start), 2_500);
    assert_eq!(start.millis_since(later), -2_500);
    let uneven = Timestamp::new(101, 999_999).unwrap();
    assert_eq!(start.millis_since(uneven), -1_000);
}

#[test]
fn knows_the_limits_of_points_in_time() {
    let last = Timestamp::new(symphony::time::MAX_SECONDS, 999_999_999).unwrap();
    assert!(Timestamp::new(symphony::time::MAX_SECONDS + 1, 0).is_none());
    assert!(Timestamp::new(symphony::time::MIN_SECONDS - 1, 0).is_none());
    assert!(Timestamp::new(58, 1_000_000_000).is_none());
    let leap = Timestamp::new(59, 1_500_000_000).unwrap();
    assert!(!last.has_room_for(1));
    assert!(last.has_room_for(0));
    assert_eq!(last.plus_millis(0), last);
    let first = Timestamp::new(symphony::time::MIN_SECONDS, 0).unwrap();
    assert!(!first.has_room_for(-1));
    assert_eq!(first.plus_millis(1).millis_since(first), 1);
    assert!(!leap.has_room_for(i64::MIN));
    assert_eq!(leap.plus_millis(1_000).timestamp(), 60);
    for (seconds, nanos) in [(symphony::time::MAX_SECONDS, 0), (symphony::time::MIN_SECONDS, 0)] {
        assert!(chrono::DateTime::<chrono::Utc>::from_timestamp(seconds, nanos).is_some());
    }
    for seconds in [symphony::time::MAX_SECONDS + 1, symphony::time::MIN_SECONDS - 1] {
        assert!(chrono::DateTime::<chrono::Utc>::from_timestamp(seconds, 0).is_none());
    }
}
