//! The handler of `POST` requests.

use vstd::prelude::*;
use crate::encode::internal_error;
use crate::files::{is_safe_name, safe_name, FileEvent, FileEventView};
use crate::get::{bad_request, first_is, not_found, routes_to};
use crate::response::{plain, Message, Outcome, Response};
use crate::text::{ascii, lines};

verus! {

/// The reply to a `POST` request, by its path segments and what the
/// file store reported. The first rule that applies decides: the root
/// path; `files` with a name; anything else is not found.
pub open spec fn post_reply(segs: Seq<Seq<u8>>, file: FileEventView) -> Message {
    if segs.len() == 0 {
        plain(200, ascii("OK"))
    } else if routes_to(segs, ascii("files")) {
        if segs.len() < 2 || !safe_name(segs[1]) {
            bad_request()
        } else if file is Written {
            plain(201, ascii("Created"))
        } else {
            internal_error()
        }
    } else {
        not_found()
    }
}

/// Handles a `POST` request.
///
/// `path` holds the segments of the request path and `file` what the
/// file store reported for it. Nothing is sent: the response is always
/// returned for the caller to encode.
pub fn handle_post(path: &Vec<Vec<u8>>, file: FileEvent) -> (r: Outcome)
    ensures
        r matches Outcome::Respond(res) && res@ == post_reply(lines(path@), file@),
{
    if path.len() == 0 {
        return Outcome::Respond(Response::new());
    }
    if first_is(path, "files") {
        if path.len() < 2 || !is_safe_name(path[1].as_slice()) {
            return Outcome::Respond(Response::with_status(400, "Bad Request"));
        }
        match file {
            FileEvent::Written => Outcome::Respond(Response::with_status(201, "Created")),
            _ => Outcome::Respond(Response::with_status(500, "Internal Server Error")),
        }
    } else {
        Outcome::Respond(Response::with_status(404, "Not Found"))
    }
}

} // verus!
