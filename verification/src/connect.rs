//! One exchange on a connection: from the request to the octets sent.

use vstd::prelude::*;
use crate::encode::{encode, encode_with, gzipped, identity, internal_error, wants_gzip};
use crate::files::{is_safe_name, safe_name, FileAction, FileActionView, FileEvent, FileEventView};
use crate::get::{bad_request, first_is, get_reply, handle_get, routes_to};
use crate::headers::{header_map, parse_headers, well_formed};
use crate::path::{parse_path, segments};
use crate::post::{handle_post, post_reply};
use crate::request::{Request, RequestView};
use crate::response::{wire, Message, Outcome, Reply, Response};
use crate::text::{ascii, copy_range, literal, same};

verus! {

/// What the served directory has to do before the request can be
/// answered: a well-formed `GET` or `POST` on `files` with a safe name
/// reads or writes that file; no other request touches a file.
pub open spec fn file_action(req: RequestView) -> FileActionView {
    let segs = segments(req.path);
    if well_formed(req.headers) && routes_to(segs, ascii("files")) && segs.len() >= 2 && safe_name(
        segs[1],
    ) {
        if req.method == ascii("GET") {
            FileActionView::Read(segs[1])
        } else if req.method == ascii("POST") {
            FileActionView::Write(segs[1], req.body)
        } else {
            FileActionView::Nothing
        }
    } else {
        FileActionView::Nothing
    }
}

/// The reply to a request, given what the file store reported. A
/// malformed header line ends the exchange with `400`; a method other
/// than `GET` and `POST` is answered `400`; otherwise the handler of the
/// method decides.
pub open spec fn reply_of(req: RequestView, file: FileEventView) -> Reply {
    if !well_formed(req.headers) {
        Reply::Terminal(bad_request())
    } else if req.method == ascii("GET") {
        get_reply(segments(req.path), header_map(req.headers), file)
    } else if req.method == ascii("POST") {
        Reply::Pass(post_reply(segments(req.path), file))
    } else {
        Reply::Pass(bad_request())
    }
}

/// The value of the request's `Accept-Encoding` header, if it has one.
pub open spec fn accept_encoding(req: RequestView) -> Option<Seq<u8>> {
    let index = header_map(req.headers);
    if index.contains_key(ascii("Accept-Encoding")) {
        Some(index[ascii("Accept-Encoding")])
    } else {
        None
    }
}

/// The message that answers a request, given what the file store
/// reported and provided the compressor does its work: a terminal reply
/// with its body as it is; any other reply compressed if the request
/// accepts gzip, and as it is if not.
pub open spec fn sent(req: RequestView, file: FileEventView) -> Message {
    match reply_of(req, file) {
        Reply::Terminal(m) => identity(m),
        Reply::Pass(m) => if wants_gzip(accept_encoding(req)) {
            gzipped(m)
        } else {
            identity(m)
        },
    }
}

/// Whether the answer to a request goes through the compressor.
pub open spec fn compresses(req: RequestView, file: FileEventView) -> bool {
    reply_of(req, file) is Pass && wants_gzip(accept_encoding(req))
}

/// How an exchange ended.
#[derive(Debug, PartialEq, Eq, Clone, Copy)]
pub enum Ending {
    /// The peer closed before it sent anything; nothing was sent.
    NoRequest,
    /// The response went through the encoder and was sent.
    Sent,
    /// A terminal reply was sent, body as it is.
    Aborted,
}

/// What the served directory has to do before `req` can be answered.
pub fn plan(req: &Request) -> (action: FileAction)
    ensures
        action@ == file_action(req@),
{
    if parse_headers(&req.headers).is_err() {
        return FileAction::Nothing;
    }
    let path = parse_path(req.path.as_slice());
    if !first_is(&path, "files") || path.len() < 2 || !is_safe_name(path[1].as_slice()) {
        return FileAction::Nothing;
    }
    let name = copy_range(path[1].as_slice(), 0, path[1].len());
    assert(name@ =~= path@[1]@);
    let get = literal("GET");
    let post = literal("POST");
    if same(req.method.as_slice(), get.as_slice()) {
        FileAction::Read(name)
    } else if same(req.method.as_slice(), post.as_slice()) {
        let contents = copy_range(req.body.as_slice(), 0, req.body.len());
        assert(contents@ =~= req.body@);
        FileAction::Write(name, contents)
    } else {
        FileAction::Nothing
    }
}

/// Serves one exchange: `req` is the request that arrived, or `None`
/// when the peer closed before sending; `file` is what came of the file
/// action that `plan` asked for. Whatever is to be sent is appended to
/// `out`.
///
/// Without a request nothing is sent. Otherwise the answer to the
/// request is sent, or, where the answer was to be compressed and the
/// compressor failed, `500 Internal Server Error`.
pub fn handle_connection(out: &mut Vec<u8>, req: Option<Request>, file: FileEvent) -> (end: Ending)
    ensures
        match req {
            None => end == Ending::NoRequest && final(out)@ == old(out)@,
            Some(r) => {
                &&& end == if reply_of(r@, file@) is Terminal {
                    Ending::Aborted
                } else {
                    Ending::Sent
                }
                &&& final(out)@ == old(out)@ + wire(sent(r@, file@)) || (compresses(r@, file@)
                    && final(out)@ == old(out)@ + wire(identity(internal_error())))
            },
        },
{
    let req = match req {
        Some(req) => req,
        None => {
            return Ending::NoRequest;
        },
    };
    let headers = match parse_headers(&req.headers) {
        Ok(headers) => headers,
        Err(_) => {
            encode_with(Response::with_status(400, "Bad Request"), None).send(out);
            return Ending::Aborted;
        },
    };
    let path = parse_path(req.path.as_slice());
    let get = literal("GET");
    let post = literal("POST");
    let outcome = if same(req.method.as_slice(), get.as_slice()) {
        handle_get(out, &path, &headers, file)
    } else if same(req.method.as_slice(), post.as_slice()) {
        handle_post(&path, file)
    } else {
        Outcome::Respond(Response::with_status(400, "Bad Request"))
    };
    match outcome {
        Outcome::Handled => Ending::Aborted,
        Outcome::Respond(res) => {
            let key = literal("Accept-Encoding");
            encode(res, headers.get(key.as_slice())).send(out);
            Ending::Sent
        },
    }
}

} // verus!
