//! Responses: the logical response that a handler builds, the binary
//! response that is framed for the wire, and the wire format itself.

use vstd::prelude::*;
use crate::text::{ascii, decimal, lines, literal, push_all, push_decimal};

verus! {

/// What a response says: the mathematical content of both response types.
pub struct Message {
    pub status: int,
    pub reason: Seq<u8>,
    pub headers: Seq<Seq<u8>>,
    pub body: Seq<u8>,
}

/// Carriage return and line feed, the line end of the wire format.
pub open spec fn crlf() -> Seq<u8> {
    seq![13u8, 10u8]
}

/// The header lines in order, each followed by a line end.
pub open spec fn header_block(hs: Seq<Seq<u8>>) -> Seq<u8>
    decreases hs.len(),
{
    if hs.len() == 0 {
        Seq::empty()
    } else {
        header_block(hs.drop_last()) + hs.last() + crlf()
    }
}

/// The octets sent for a message: status line, header lines, an empty
/// line, the body, and a closing line end.
pub open spec fn wire(m: Message) -> Seq<u8> {
    ascii("HTTP/1.1 ") + decimal(m.status) + seq![32u8] + m.reason + crlf() + header_block(
        m.headers,
    ) + crlf() + m.body + crlf()
}

/// The message with the given status and reason phrase, the one header
/// `Content-Type: text/plain`, and an empty body.
pub open spec fn plain(status: int, reason: Seq<u8>) -> Message {
    Message { status, reason, headers: seq![ascii("Content-Type: text/plain")], body: Seq::empty() }
}

/// The response of a handler, before framing and content encoding.
#[derive(Debug)]
pub struct Response {
    pub status: i32,
    pub status_message: Vec<u8>,
    pub headers: Vec<Vec<u8>>,
    pub body: Vec<u8>,
}

impl View for Response {
    type V = Message;

    open spec fn view(&self) -> Message {
        Message {
            status: self.status as int,
            reason: self.status_message@,
            headers: lines(self.headers@),
            body: self.body@,
        }
    }
}

impl Response {
    /// A plain-text response with the given status line and no body.
    pub fn with_status(status: i32, reason: &str) -> (res: Response)
        ensures
            res@ == plain(status as int, ascii(reason)),
    {
        let mut headers: Vec<Vec<u8>> = Vec::new();
        headers.push(literal("Content-Type: text/plain"));
        let res = Response { status, status_message: literal(reason), headers, body: Vec::new() };
        assert(res@.headers =~= seq![ascii("Content-Type: text/plain")]);
        res
    }

    /// The default response: `200 OK`, plain text, empty body.
    pub fn new() -> (res: Response)
        ensures
            res@ == plain(200, ascii("OK")),
    {
        Response::with_status(200, "OK")
    }
}

/// What a handler decided, as a message: either it answered the peer
/// itself, which ends the exchange, or it hands a response on to the
/// encoder.
pub enum Reply {
    /// Sent by the handler, body as it is; nothing more may be sent.
    Terminal(Message),
    /// To be encoded and sent by the caller.
    Pass(Message),
}

/// What a handler returns.
#[derive(Debug)]
pub enum Outcome {
    /// The handler has sent its answer; nothing more may be sent.
    Handled,
    /// The response that the caller is to encode and send.
    Respond(Response),
}

/// A response whose body is binary, as it goes on the wire.
#[derive(Debug)]
pub struct BinResponse {
    pub status: i32,
    pub status_message: Vec<u8>,
    pub headers: Vec<Vec<u8>>,
    pub body: Vec<u8>,
}

impl View for BinResponse {
    type V = Message;

    open spec fn view(&self) -> Message {
        Message {
            status: self.status as int,
            reason: self.status_message@,
            headers: lines(self.headers@),
            body: self.body@,
        }
    }
}

/// The response after content encoding: another name for `BinResponse`.
pub type EncodedResponse = BinResponse;

impl BinResponse {
    /// Takes over status line and headers of a logical response. The body
    /// starts empty: the encoder puts the encoded body in its place.
    pub fn from(res: Response) -> (bin: BinResponse)
        ensures
            bin@ == (Message { body: Seq::empty(), ..res@ }),
    {
        BinResponse {
            status: res.status,
            status_message: res.status_message,
            headers: res.headers,
            body: Vec::new(),
        }
    }

    /// The wire form of this response.
    pub fn to_bytes(&self) -> (bytes: Vec<u8>)
        ensures
            bytes@ == wire(self@),
    {
        let mut bytes: Vec<u8> = literal("HTTP/1.1 ");
        push_decimal(&mut bytes, self.status);
        bytes.push(32);
        push_all(&mut bytes, self.status_message.as_slice());
        bytes.push(13);
        bytes.push(10);
        let ghost head = bytes@;
        assert(head =~= ascii("HTTP/1.1 ") + decimal(self@.status) + seq![32u8] + self@.reason
            + crlf());
        let mut i: usize = 0;
        while i < self.headers.len()
            invariant
                i <= self.headers@.len(),
                bytes@ == head + header_block(lines(self.headers@).take(i as int)),
            decreases self.headers@.len() - i,
        {
            let ghost before = bytes@;
            push_all(&mut bytes, self.headers[i].as_slice());
            bytes.push(13);
            bytes.push(10);
            proof {
                let hs = lines(self.headers@);
                assert(hs.take(i + 1).drop_last() =~= hs.take(i as int));
                assert(hs.take(i + 1).last() == self.headers@[i as int]@);
                assert(bytes@ =~= before + self.headers@[i as int]@ + crlf());
                assert(bytes@ =~= head + header_block(hs.take(i + 1)));
            }
            i += 1;
        }
        assert(lines(self.headers@).take(i as int) =~= lines(self.headers@));
        let ghost top = bytes@;
        bytes.push(13);
        bytes.push(10);
        push_all(&mut bytes, self.body.as_slice());
        bytes.push(13);
        bytes.push(10);
        assert(bytes@ =~= top + crlf() + self.body@ + crlf());
        bytes
    }

    /// Sends this response: its wire form is appended, whole, to the
    /// outgoing octets of the connection.
    pub fn send(&self, out: &mut Vec<u8>)
        ensures
            final(out)@ == old(out)@ + wire(self@),
    {
        let bytes = self.to_bytes();
        push_all(out, bytes.as_slice());
    }
}

} // verus!
