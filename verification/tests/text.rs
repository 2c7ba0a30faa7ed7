use tauri_webview::content_range::{covers_whole_resource, parse_content_range};
use tauri_webview::text::{
    before_first_of, chars_of, decimal, parse_u64, same_text, split_once, starts_with,
    strip_prefix, trim_end_matches, trim_start_matches,
};

#[test]
fn numbers_are_written_and_read() {
    for n in [0, 7, 10, 99, 1024, 31536000, u64::MAX] {
        assert_eq!(decimal(n), n.to_string());
        assert_eq!(parse_u64(&decimal(n)), Some(n));
    }
}

#[test]
fn numbers_are_read_as_the_standard_library_reads_them() {
    for text in [
        "", "+", "-", "-1", "+5", "++5", "007", " 1", "1 ", "1a", "0x1", "\u{661}",
        "18446744073709551615", "18446744073709551616", "99999999999999999999999",
        "00000000000000000000000018446744073709551615",
    ] {
        assert_eq!(parse_u64(text), text.parse::<u64>().ok(), "{text}");
    }
}

#[test]
fn texts_are_taken_apart() {
    assert_eq!(chars_of("\u{e4}b"), vec!['\u{e4}', 'b']);
    assert!(same_text("ab", "ab") && !same_text("ab", "a"));
    assert_eq!(before_first_of("a#b?c", "?#"), "a");
    assert_eq!(before_first_of("abc", "?#"), "abc");
    assert_eq!(before_first_of("?", "?#"), "");
    assert_eq!(split_once("a-b-c", '-'), Some(("a".to_string(), "b-c".to_string())));
    assert_eq!(split_once("-", '-'), Some((String::new(), String::new())));
    assert_eq!(split_once("abc", '-'), None);
    assert_eq!(strip_prefix("abc", "ab"), Some("c".to_string()));
    assert_eq!(strip_prefix("abc", ""), Some("abc".to_string()));
    assert_eq!(strip_prefix("abc", "b"), None);
    assert_eq!(strip_prefix("a", "ab"), None);
    assert!(starts_with("https://x", "https") && !starts_with("http", "https"));
    assert_eq!(trim_start_matches("//a/", '/'), "a/");
    assert_eq!(trim_end_matches("/a//", '/'), "/a");
    assert_eq!(trim_start_matches("//", '/'), "");
    assert_eq!(trim_end_matches("", '/'), "");
}

#[test]
fn ranges_are_read() {
    assert_eq!(parse_content_range("bytes 0-499/1234"), Some((0, 499, 1234)));
    for (first, last, total) in [(0, 0, 1), (7, 3, 2), (1, u64::MAX, 0)] {
        assert_eq!(
            parse_content_range(&format!("bytes {first}-{last}/{total}")),
            Some((first, last, total))
        );
    }
    for text in [
        "", "bytes", "bytes 0-1", "bytes 01/2", "bytes */5", "bytes 0-1/*", "bytes=0-1/2",
        "Bytes 0-1/2", "bytes 0-1/2/3", "bytes 0-1-2/3", "bytes -1/2", "bytes 0-/2",
        "bytes  0-1/2",
    ] {
        assert_eq!(parse_content_range(text), None, "{text}");
    }
}

#[test]
fn a_range_from_first_to_last_byte_is_everything() {
    assert!(covers_whole_resource("bytes 0-4/5"));
    assert!(covers_whole_resource("bytes 0-0/1"));
    assert!(covers_whole_resource("bytes +0-4/05"));
    assert!(covers_whole_resource("bytes 0-18446744073709551614/18446744073709551615"));
    assert!(!covers_whole_resource("bytes 0-3/5"));
    assert!(!covers_whole_resource("bytes 1-4/5"));
    assert!(!covers_whole_resource("bytes 0-5/5"));
    assert!(!covers_whole_resource("bytes 0-0/0"));
    assert!(!covers_whole_resource("bytes 0-18446744073709551615/0"));
    assert!(!covers_whole_resource("bytes */5"));
    assert!(!covers_whole_resource("bytes 0-4/*"));
}
