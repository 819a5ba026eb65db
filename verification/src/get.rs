//! The handler of `GET` requests.

use vstd::prelude::*;
use crate::encode::{content_length, content_length_line, encode_with, identity, internal_error};
use crate::files::{is_safe_name, safe_name, FileEvent, FileEventView};
use crate::headers::HeaderIndex;
use crate::response::{plain, wire, Message, Outcome, Reply, Response};
use crate::text::{ascii, copy_range, is_keyword, lines, literal, lowered};

verus! {

/// Whether the path's first segment is `keyword`, whatever its case.
pub open spec fn routes_to(segs: Seq<Seq<u8>>, keyword: Seq<u8>) -> bool {
    segs.len() > 0 && lowered(segs[0]) == keyword
}

/// The reply to a request that cannot be served as it stands.
pub open spec fn bad_request() -> Message {
    plain(400, ascii("Bad Request"))
}

/// The reply for a path that leads nowhere.
pub open spec fn not_found() -> Message {
    plain(404, ascii("Not Found"))
}

/// `200 OK` with a plain-text body and its length.
pub open spec fn text_reply(body: Seq<u8>) -> Message {
    Message {
        status: 200,
        reason: ascii("OK"),
        headers: seq![ascii("Content-Type: text/plain"), content_length_line(body.len())],
        body,
    }
}

/// `200 OK` with the contents of a file and their length.
pub open spec fn file_reply(contents: Seq<u8>) -> Message {
    Message {
        status: 200,
        reason: ascii("OK"),
        headers: seq![
            ascii("Content-Type: application/octet-stream"),
            content_length_line(contents.len()),
        ],
        body: contents,
    }
}

/// The reply that says which header is missing.
pub open spec fn missing_user_agent() -> Message {
    Message { body: ascii("Missing User-Agent header"), ..bad_request() }
}

/// The reply to a `GET` request, by its path segments, its headers, and
/// what the file store reported. The first rule that applies decides:
/// the root path; `echo` with its payload; `user-agent`; `files` with a
/// name; anything else is not found.
pub open spec fn get_reply(
    segs: Seq<Seq<u8>>,
    headers: Map<Seq<u8>, Seq<u8>>,
    file: FileEventView,
) -> Reply {
    if segs.len() == 0 {
        Reply::Pass(plain(200, ascii("OK")))
    } else if routes_to(segs, ascii("echo")) {
        if segs.len() < 2 {
            Reply::Pass(bad_request())
        } else {
            Reply::Pass(text_reply(segs[1]))
        }
    } else if routes_to(segs, ascii("user-agent")) {
        if headers.contains_key(ascii("User-Agent")) {
            Reply::Pass(text_reply(headers[ascii("User-Agent")]))
        } else {
            Reply::Terminal(missing_user_agent())
        }
    } else if routes_to(segs, ascii("files")) {
        if segs.len() < 2 || !safe_name(segs[1]) {
            Reply::Pass(bad_request())
        } else {
            match file {
                FileEventView::Contents(contents) => Reply::Pass(file_reply(contents)),
                FileEventView::Missing => Reply::Terminal(not_found()),
                _ => Reply::Pass(internal_error()),
            }
        }
    } else {
        Reply::Pass(not_found())
    }
}

/// What a handler owes for a given reply: a terminal reply is on the
/// wire, body as it is, and the handler reports `Handled`; any other
/// reply is returned and nothing is sent.
pub open spec fn delivers(reply: Reply, before: Seq<u8>, after: Seq<u8>, r: Outcome) -> bool {
    match reply {
        Reply::Terminal(m) => r is Handled && after == before + wire(identity(m)),
        Reply::Pass(m) => after == before && (r matches Outcome::Respond(res) && res@ == m),
    }
}

/// `200 OK` with a body, a content type and the body's length.
pub fn ok_with(content_type: &str, body: Vec<u8>) -> (res: Response)
    ensures
        res@ == (Message {
            status: 200,
            reason: ascii("OK"),
            headers: seq![ascii(content_type), content_length_line(body@.len())],
            body: body@,
        }),
{
    let mut headers: Vec<Vec<u8>> = Vec::new();
    headers.push(literal(content_type));
    headers.push(content_length(body.len()));
    let res = Response { status: 200, status_message: literal("OK"), headers, body };
    assert(res@.headers =~= seq![ascii(content_type), content_length_line(body@.len())]);
    res
}

/// Whether the path's first segment is `keyword`, whatever its case.
pub fn first_is(path: &Vec<Vec<u8>>, keyword: &str) -> (r: bool)
    ensures
        r == routes_to(lines(path@), ascii(keyword)),
{
    if path.len() == 0 {
        return false;
    }
    let k = literal(keyword);
    is_keyword(path[0].as_slice(), k.as_slice())
}

/// Handles a `GET` request.
///
/// `path` holds the segments of the request path, `headers` its header
/// index, and `file` what the file store reported for it. A terminal
/// reply (no `User-Agent` header, no such file) is sent to `out` at
/// once; every other response is returned for the caller to encode.
pub fn handle_get(
    out: &mut Vec<u8>,
    path: &Vec<Vec<u8>>,
    headers: &HeaderIndex,
    file: FileEvent,
) -> (r: Outcome)
    ensures
        delivers(get_reply(lines(path@), headers@, file@), old(out)@, final(out)@, r),
{
    if path.len() == 0 {
        return Outcome::Respond(Response::new());
    }
    if first_is(path, "echo") {
        if path.len() < 2 {
            return Outcome::Respond(Response::with_status(400, "Bad Request"));
        }
        let payload = copy_range(path[1].as_slice(), 0, path[1].len());
        assert(payload@ =~= path@[1]@);
        Outcome::Respond(ok_with("Content-Type: text/plain", payload))
    } else if first_is(path, "user-agent") {
        let key = literal("User-Agent");
        match headers.get(key.as_slice()) {
            Some(agent) => {
                let body = copy_range(agent.as_slice(), 0, agent.len());
                assert(body@ =~= agent@);
                Outcome::Respond(ok_with("Content-Type: text/plain", body))
            },
            None => {
                let mut res = Response::with_status(400, "Bad Request");
                res.body = literal("Missing User-Agent header");
                encode_with(res, None).send(out);
                Outcome::Handled
            },
        }
    } else if first_is(path, "files") {
        if path.len() < 2 || !is_safe_name(path[1].as_slice()) {
            return Outcome::Respond(Response::with_status(400, "Bad Request"));
        }
        match file {
            FileEvent::Contents(contents) => Outcome::Respond(
                ok_with("Content-Type: application/octet-stream", contents),
            ),
            FileEvent::Missing => {
                encode_with(Response::with_status(404, "Not Found"), None).send(out);
                Outcome::Handled
            },
            _ => Outcome::Respond(Response::with_status(500, "Internal Server Error")),
        }
    } else {
        Outcome::Respond(Response::with_status(404, "Not Found"))
    }
}

} // verus!
