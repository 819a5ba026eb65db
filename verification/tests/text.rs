use http_server::path::parse_path;
use http_server::text::{find, is_keyword, push_decimal, push_digits, same, trim};

fn segs(path: &str) -> Vec<String> {
    parse_path(path.as_bytes()).into_iter().map(|s| String::from_utf8(s).unwrap()).collect()
}

#[test]
fn trim_removes_surrounding_white_space_only() {
    assert_eq!(trim(b"  a b \t\r\n"), b"a b".to_vec());
    assert_eq!(trim(b"\x0b\x0cx"), b"x".to_vec());
    assert_eq!(trim(b"abc"), b"abc".to_vec());
    assert_eq!(trim(b"   "), Vec::<u8>::new());
    assert_eq!(trim(b""), Vec::<u8>::new());
}

#[test]
fn find_gives_first_position_or_length() {
    assert_eq!(find(b"a:b:c", b':'), 1);
    assert_eq!(find(b":", b':'), 0);
    assert_eq!(find(b"abc", b':'), 3);
    assert_eq!(find(b"", b':'), 0);
}

#[test]
fn same_compares_octets() {
    assert!(same(b"GET", b"GET"));
    assert!(!same(b"GET", b"GEt"));
    assert!(!same(b"GET", b"GETS"));
    assert!(same(b"", b""));
}

#[test]
fn keyword_match_ignores_ascii_case() {
    assert!(is_keyword(b"ECHO", b"echo"));
    assert!(is_keyword(b"eChO", b"echo"));
    assert!(!is_keyword(b"echo1", b"echo"));
    assert!(!is_keyword(b"ech", b"echo"));
    assert!(!is_keyword(b"echo", b"ECHO"));
}

#[test]
fn digits_of_numbers() {
    let mut out = Vec::new();
    push_digits(&mut out, 0);
    assert_eq!(out, b"0".to_vec());
    let mut out = b"n=".to_vec();
    push_digits(&mut out, 1234567890);
    assert_eq!(out, b"n=1234567890".to_vec());
    let mut out = Vec::new();
    push_digits(&mut out, u64::MAX);
    assert_eq!(out, b"18446744073709551615".to_vec());
}

#[test]
fn decimal_of_signed_numbers() {
    let mut out = Vec::new();
    push_decimal(&mut out, 404);
    assert_eq!(out, b"404".to_vec());
    let mut out = Vec::new();
    push_decimal(&mut out, -7);
    assert_eq!(out, b"-7".to_vec());
    let mut out = Vec::new();
    push_decimal(&mut out, i32::MIN);
    assert_eq!(out, b"-2147483648".to_vec());
}

#[test]
fn path_of_root_has_no_segments() {
    assert!(segs("/").is_empty());
    assert!(segs("").is_empty());
    assert!(segs("///").is_empty());
}

#[test]
fn path_segments_drop_empty_ones() {
    assert_eq!(segs("/echo/abc"), vec!["echo", "abc"]);
    assert_eq!(segs("//echo///abc/"), vec!["echo", "abc"]);
    assert_eq!(segs("files/a/b"), vec!["files", "a", "b"]);
    assert_eq!(segs("x"), vec!["x"]);
}

#[test]
fn path_segments_keep_their_case() {
    assert_eq!(segs("/Echo/HeLLo"), vec!["Echo", "HeLLo"]);
}
