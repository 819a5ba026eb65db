//! The request as the handlers see it.

use vstd::prelude::*;
use crate::text::lines;

verus! {

/// What a request holds.
pub struct RequestView {
    pub method: Seq<u8>,
    pub path: Seq<u8>,
    pub headers: Seq<Seq<u8>>,
    pub body: Seq<u8>,
}

/// One request: method, path as received, raw header lines, body.
#[derive(Debug)]
pub struct Request {
    pub method: Vec<u8>,
    pub path: Vec<u8>,
    pub headers: Vec<Vec<u8>>,
    pub body: Vec<u8>,
}

impl View for Request {
    type V = RequestView;

    open spec fn view(&self) -> RequestView {
        RequestView {
            method: self.method@,
            path: self.path@,
            headers: lines(self.headers@),
            body: self.body@,
        }
    }
}

} // verus!
