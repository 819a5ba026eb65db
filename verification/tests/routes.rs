use http_server::connect::{handle_connection, plan, Ending};
use http_server::files::{is_safe_name, FileAction, FileEvent};
use http_server::get::handle_get;
use http_server::headers::parse_headers;
use http_server::path::parse_path;
use http_server::post::handle_post;
use http_server::request::Request;
use http_server::response::Outcome;

fn request(method: &str, path: &str, headers: &[&str], body: &[u8]) -> Request {
    Request {
        method: method.as_bytes().to_vec(),
        path: path.as_bytes().to_vec(),
        headers: headers.iter().map(|h| h.as_bytes().to_vec()).collect(),
        body: body.to_vec(),
    }
}

fn serve(method: &str, path: &str, headers: &[&str], body: &[u8], file: FileEvent) -> (Ending, String) {
    let mut out = Vec::new();
    let end = handle_connection(&mut out, Some(request(method, path, headers, body)), file);
    (end, String::from_utf8(out).unwrap())
}

#[test]
fn root_is_ok_and_empty() {
    let (end, out) = serve("GET", "/", &[], b"", FileEvent::NotAsked);
    assert_eq!(end, Ending::Sent);
    assert_eq!(out, "HTTP/1.1 200 OK\r\nContent-Type: text/plain\r\nContent-Length: 0\r\n\r\n\r\n");
}

#[test]
fn root_ignores_other_headers() {
    let (end, out) = serve("GET", "/", &["Host: x", "User-Agent: y", "X-Any: z"], b"", FileEvent::NotAsked);
    assert_eq!(end, Ending::Sent);
    assert_eq!(out, "HTTP/1.1 200 OK\r\nContent-Type: text/plain\r\nContent-Length: 0\r\n\r\n\r\n");
}

#[test]
fn root_answers_post_too() {
    let (end, out) = serve("POST", "/", &[], b"data", FileEvent::NotAsked);
    assert_eq!(end, Ending::Sent);
    assert_eq!(out, "HTTP/1.1 200 OK\r\nContent-Type: text/plain\r\nContent-Length: 0\r\n\r\n\r\n");
}

#[test]
fn no_request_sends_nothing() {
    let mut out = b"kept".to_vec();
    let end = handle_connection(&mut out, None, FileEvent::NotAsked);
    assert_eq!(end, Ending::NoRequest);
    assert_eq!(out, b"kept".to_vec());
}

#[test]
fn output_is_appended_to_what_is_there() {
    let mut out = b"before".to_vec();
    handle_connection(&mut out, Some(request("GET", "/nowhere", &[], b"")), FileEvent::NotAsked);
    assert_eq!(
        out,
        b"beforeHTTP/1.1 404 Not Found\r\nContent-Type: text/plain\r\nContent-Length: 0\r\n\r\n\r\n".to_vec()
    );
}

#[test]
fn echo_returns_the_segment_with_its_length() {
    let (end, out) = serve("GET", "/echo/hello", &["Host: x"], b"", FileEvent::NotAsked);
    assert_eq!(end, Ending::Sent);
    assert_eq!(out, "HTTP/1.1 200 OK\r\nContent-Type: text/plain\r\nContent-Length: 5\r\n\r\nhello\r\n");
}

#[test]
fn echo_keeps_case_of_payload_and_ignores_case_of_keyword() {
    let (_, out) = serve("GET", "/ECHO/HeLLo", &[], b"", FileEvent::NotAsked);
    assert_eq!(out, "HTTP/1.1 200 OK\r\nContent-Type: text/plain\r\nContent-Length: 5\r\n\r\nHeLLo\r\n");
}

#[test]
fn echo_length_counts_octets() {
    let (_, out) = serve("GET", "/echo/\u{e9}t\u{e9}", &[], b"", FileEvent::NotAsked);
    assert_eq!(out, "HTTP/1.1 200 OK\r\nContent-Type: text/plain\r\nContent-Length: 5\r\n\r\n\u{e9}t\u{e9}\r\n");
}

#[test]
fn echo_without_payload_is_bad_request() {
    let (end, out) = serve("GET", "/echo/", &[], b"", FileEvent::NotAsked);
    assert_eq!(end, Ending::Sent);
    assert_eq!(out, "HTTP/1.1 400 Bad Request\r\nContent-Type: text/plain\r\nContent-Length: 0\r\n\r\n\r\n");
}

#[test]
fn echo_takes_second_segment_only() {
    let (_, out) = serve("GET", "/echo/a/b", &[], b"", FileEvent::NotAsked);
    assert_eq!(out, "HTTP/1.1 200 OK\r\nContent-Type: text/plain\r\nContent-Length: 1\r\n\r\na\r\n");
}

#[test]
fn user_agent_is_reflected() {
    let (end, out) = serve("GET", "/user-agent", &["User-Agent: test-agent/1.0"], b"", FileEvent::NotAsked);
    assert_eq!(end, Ending::Sent);
    assert_eq!(
        out,
        "HTTP/1.1 200 OK\r\nContent-Type: text/plain\r\nContent-Length: 14\r\n\r\ntest-agent/1.0\r\n"
    );
}

#[test]
fn user_agent_missing_is_bad_request() {
    let (end, out) = serve("GET", "/user-agent", &["Host: x"], b"", FileEvent::NotAsked);
    assert_eq!(end, Ending::Aborted);
    assert_eq!(
        out,
        "HTTP/1.1 400 Bad Request\r\nContent-Type: text/plain\r\nContent-Length: 25\r\n\r\nMissing User-Agent header\r\n"
    );
}

#[test]
fn user_agent_missing_is_never_compressed() {
    let (end, out) = serve("GET", "/user-agent", &["Accept-Encoding: gzip"], b"", FileEvent::NotAsked);
    assert_eq!(end, Ending::Aborted);
    assert_eq!(
        out,
        "HTTP/1.1 400 Bad Request\r\nContent-Type: text/plain\r\nContent-Length: 25\r\n\r\nMissing User-Agent header\r\n"
    );
}

#[test]
fn missing_file_is_not_found() {
    let (end, out) = serve("GET", "/files/missing", &[], b"", FileEvent::Missing);
    assert_eq!(end, Ending::Aborted);
    assert_eq!(out, "HTTP/1.1 404 Not Found\r\nContent-Type: text/plain\r\nContent-Length: 0\r\n\r\n\r\n");
}

#[test]
fn file_contents_are_served_as_octets() {
    let (end, out) = serve("GET", "/files/f", &[], b"", FileEvent::Contents(b"abc\n".to_vec()));
    assert_eq!(end, Ending::Sent);
    assert_eq!(
        out,
        "HTTP/1.1 200 OK\r\nContent-Type: application/octet-stream\r\nContent-Length: 4\r\n\r\nabc\n\r\n"
    );
}

#[test]
fn file_read_failure_is_internal_error() {
    let (end, out) = serve("GET", "/files/f", &[], b"", FileEvent::Failed);
    assert_eq!(end, Ending::Sent);
    assert_eq!(
        out,
        "HTTP/1.1 500 Internal Server Error\r\nContent-Type: text/plain\r\nContent-Length: 0\r\n\r\n\r\n"
    );
    let (_, out) = serve("GET", "/files/f", &[], b"", FileEvent::NotAsked);
    assert!(out.starts_with("HTTP/1.1 500 "));
    let (_, out) = serve("GET", "/files/f", &[], b"", FileEvent::Written);
    assert!(out.starts_with("HTTP/1.1 500 "));
}

#[test]
fn file_write_is_created() {
    let (end, out) = serve("POST", "/files/f", &["Content-Length: 3"], b"abc", FileEvent::Written);
    assert_eq!(end, Ending::Sent);
    assert_eq!(out, "HTTP/1.1 201 Created\r\nContent-Type: text/plain\r\nContent-Length: 0\r\n\r\n\r\n");
}

#[test]
fn file_write_failure_is_internal_error() {
    let (_, out) = serve("POST", "/files/f", &[], b"abc", FileEvent::Failed);
    assert_eq!(
        out,
        "HTTP/1.1 500 Internal Server Error\r\nContent-Type: text/plain\r\nContent-Length: 0\r\n\r\n\r\n"
    );
    let (_, out) = serve("POST", "/files/f", &[], b"abc", FileEvent::Missing);
    assert!(out.starts_with("HTTP/1.1 500 "));
}

#[test]
fn written_file_is_read_back() {
    let written = b"\x00\x01binary\xff".to_vec();
    let post = request("POST", "/files/Data.bin", &[], &written);
    let stored = match plan(&post) {
        FileAction::Write(name, contents) => {
            assert_eq!(name, b"Data.bin".to_vec());
            contents
        }
        other => panic!("unexpected action {:?}", other),
    };
    assert_eq!(stored, written);
    let get = request("GET", "/files/Data.bin", &[], b"");
    match plan(&get) {
        FileAction::Read(name) => assert_eq!(name, b"Data.bin".to_vec()),
        other => panic!("unexpected action {:?}", other),
    }
    let mut out = Vec::new();
    handle_connection(&mut out, Some(get), FileEvent::Contents(stored));
    let mut expected =
        b"HTTP/1.1 200 OK\r\nContent-Type: application/octet-stream\r\nContent-Length: 9\r\n\r\n".to_vec();
    expected.extend_from_slice(&written);
    expected.extend_from_slice(b"\r\n");
    assert_eq!(out, expected);
}

#[test]
fn plan_asks_for_nothing_elsewhere() {
    assert!(matches!(plan(&request("GET", "/", &[], b"")), FileAction::Nothing));
    assert!(matches!(plan(&request("GET", "/echo/files", &[], b"")), FileAction::Nothing));
    assert!(matches!(plan(&request("GET", "/files", &[], b"")), FileAction::Nothing));
    assert!(matches!(plan(&request("DELETE", "/files/f", &[], b"")), FileAction::Nothing));
    assert!(matches!(plan(&request("GET", "/files/f", &["broken"], b"")), FileAction::Nothing));
    assert!(matches!(plan(&request("POST", "/files/..", &[], b"x")), FileAction::Nothing));
}

#[test]
fn names_that_leave_the_directory_are_refused() {
    assert!(!is_safe_name(b"."));
    assert!(!is_safe_name(b".."));
    assert!(is_safe_name(b"..."));
    assert!(is_safe_name(b"a.txt"));
    let (_, out) = serve("GET", "/files/..", &[], b"", FileEvent::NotAsked);
    assert_eq!(out, "HTTP/1.1 400 Bad Request\r\nContent-Type: text/plain\r\nContent-Length: 0\r\n\r\n\r\n");
    let (_, out) = serve("POST", "/files/.", &[], b"x", FileEvent::NotAsked);
    assert!(out.starts_with("HTTP/1.1 400 Bad Request\r\n"));
}

#[test]
fn files_without_name_is_bad_request() {
    let (_, out) = serve("GET", "/files", &[], b"", FileEvent::NotAsked);
    assert!(out.starts_with("HTTP/1.1 400 Bad Request\r\n"));
    let (_, out) = serve("POST", "/files/", &[], b"", FileEvent::NotAsked);
    assert!(out.starts_with("HTTP/1.1 400 Bad Request\r\n"));
}

#[test]
fn unknown_path_is_not_found() {
    let (end, out) = serve("GET", "/nowhere", &[], b"", FileEvent::NotAsked);
    assert_eq!(end, Ending::Sent);
    assert_eq!(out, "HTTP/1.1 404 Not Found\r\nContent-Type: text/plain\r\nContent-Length: 0\r\n\r\n\r\n");
    let (_, out) = serve("POST", "/echo/x", &[], b"", FileEvent::NotAsked);
    assert!(out.starts_with("HTTP/1.1 404 Not Found\r\n"));
}

#[test]
fn unsupported_method_is_bad_request() {
    let (end, out) = serve("DELETE", "/", &[], b"", FileEvent::NotAsked);
    assert_eq!(end, Ending::Sent);
    assert_eq!(out, "HTTP/1.1 400 Bad Request\r\nContent-Type: text/plain\r\nContent-Length: 0\r\n\r\n\r\n");
    let (_, out) = serve("PUT", "/files/f", &[], b"x", FileEvent::NotAsked);
    assert!(out.starts_with("HTTP/1.1 400 Bad Request\r\n"));
    let (_, out) = serve("get", "/echo/x", &[], b"", FileEvent::NotAsked);
    assert!(out.starts_with("HTTP/1.1 400 Bad Request\r\n"));
}

#[test]
fn malformed_header_is_bad_request() {
    let (end, out) = serve("GET", "/echo/x", &["Host: x", "no separator"], b"", FileEvent::NotAsked);
    assert_eq!(end, Ending::Aborted);
    assert_eq!(out, "HTTP/1.1 400 Bad Request\r\nContent-Type: text/plain\r\nContent-Length: 0\r\n\r\n\r\n");
}

#[test]
fn get_handler_sends_only_terminal_replies() {
    let headers = parse_headers(&vec![b"User-Agent: ua".to_vec()]).unwrap();
    let mut out = Vec::new();
    let path = parse_path(b"/user-agent");
    match handle_get(&mut out, &path, &headers, FileEvent::NotAsked) {
        Outcome::Respond(res) => {
            assert_eq!(res.status, 200);
            assert_eq!(res.status_message, b"OK".to_vec());
            assert_eq!(res.body, b"ua".to_vec());
            assert_eq!(res.headers, vec![b"Content-Type: text/plain".to_vec(), b"Content-Length: 2".to_vec()]);
        }
        Outcome::Handled => panic!("nothing should have been sent"),
    }
    assert!(out.is_empty());
    let path = parse_path(b"/files/none");
    assert!(matches!(handle_get(&mut out, &path, &headers, FileEvent::Missing), Outcome::Handled));
    assert_eq!(
        out,
        b"HTTP/1.1 404 Not Found\r\nContent-Type: text/plain\r\nContent-Length: 0\r\n\r\n\r\n".to_vec()
    );
}

#[test]
fn post_handler_returns_its_response() {
    let path = parse_path(b"/files/f");
    match handle_post(&path, FileEvent::Written) {
        Outcome::Respond(res) => {
            assert_eq!(res.status, 201);
            assert_eq!(res.status_message, b"Created".to_vec());
            assert!(res.body.is_empty());
        }
        Outcome::Handled => panic!("the post handler sends nothing itself"),
    }
}
