use http_server::headers::{parse_header, parse_headers};

fn lines(ls: &[&str]) -> Vec<Vec<u8>> {
    ls.iter().map(|l| l.as_bytes().to_vec()).collect()
}

#[test]
fn header_is_split_at_first_colon_and_trimmed() {
    let (name, value) = parse_header(b"  Host :  localhost:4221  ").unwrap();
    assert_eq!(name, b"Host".to_vec());
    assert_eq!(value, b"localhost:4221".to_vec());
}

#[test]
fn header_without_colon_has_no_parts() {
    assert!(parse_header(b"Host localhost").is_none());
    assert!(parse_header(b"").is_none());
}

#[test]
fn header_with_empty_value() {
    let (name, value) = parse_header(b"X-Empty:").unwrap();
    assert_eq!(name, b"X-Empty".to_vec());
    assert_eq!(value, Vec::<u8>::new());
}

#[test]
fn index_finds_headers_by_exact_name() {
    let index = parse_headers(&lines(&["Host: a", "User-Agent: curl/8.0", "Accept: */*"])).unwrap();
    assert_eq!(index.get(b"User-Agent"), Some(&b"curl/8.0".to_vec()));
    assert_eq!(index.get(b"Host"), Some(&b"a".to_vec()));
    assert_eq!(index.get(b"user-agent"), None);
    assert_eq!(index.get(b"Missing"), None);
}

#[test]
fn index_keeps_last_of_repeated_header() {
    let index = parse_headers(&lines(&["X: 1", "Y: 2", "X: 3"])).unwrap();
    assert_eq!(index.get(b"X"), Some(&b"3".to_vec()));
    assert_eq!(index.get(b"Y"), Some(&b"2".to_vec()));
}

#[test]
fn index_of_no_lines_is_empty() {
    let index = parse_headers(&lines(&[])).unwrap();
    assert_eq!(index.get(b"Host"), None);
}

#[test]
fn malformed_line_is_reported_with_its_position() {
    let err = parse_headers(&lines(&["Host: a", "broken line", "also broken"])).unwrap_err();
    assert_eq!(err.line, 1);
}
