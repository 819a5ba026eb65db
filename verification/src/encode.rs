//! The response encoder: content negotiation, gzip, and the headers that
//! frame the body.

use std::io::Write;
use vstd::prelude::*;
use crate::headers::{parse_header, split_header};
use crate::response::{plain, BinResponse, Message, Response};
use crate::text::{
    ascii, copy_range, digits, index_of, lemma_index_of, lines, literal, push_digits, same, trim,
    trimmed,
};

verus! {

/// The separator between the tokens of a header value.
pub const COMMA: u8 = 44;

/// Whether a comma-separated list has `token` among its trimmed items.
pub open spec fn has_token(s: Seq<u8>, token: Seq<u8>) -> bool
    decreases s.len(),
{
    let i = index_of(s, COMMA);
    if 0 <= i < s.len() {
        trimmed(s.take(i)) == token || has_token(s.skip(i + 1), token)
    } else {
        trimmed(s) == token
    }
}

/// Whether the value of an `Accept-Encoding` header allows gzip.
pub open spec fn accepts_gzip(value: Seq<u8>) -> bool {
    has_token(value, ascii("gzip"))
}

/// Whether the request asks for a gzip body: it has an `Accept-Encoding`
/// header and gzip is among its tokens.
pub open spec fn wants_gzip(accept: Option<Seq<u8>>) -> bool {
    match accept {
        Some(value) => accepts_gzip(value),
        None => false,
    }
}

/// Whether a header line is a `Content-Length` header.
pub open spec fn is_content_length(line: Seq<u8>) -> bool {
    match split_header(line) {
        Some((name, _)) => name == ascii("Content-Length"),
        None => false,
    }
}

/// The header lines without the `Content-Length` headers, order kept.
pub open spec fn without_content_length(hs: Seq<Seq<u8>>) -> Seq<Seq<u8>>
    decreases hs.len(),
{
    if hs.len() == 0 {
        Seq::empty()
    } else if is_content_length(hs.last()) {
        without_content_length(hs.drop_last())
    } else {
        without_content_length(hs.drop_last()).push(hs.last())
    }
}

/// The header line that declares a body of `n` octets.
pub open spec fn content_length_line(n: nat) -> Seq<u8> {
    ascii("Content-Length: ") + digits(n)
}

/// The headers that mark a gzip body; none for a body sent as it is.
pub open spec fn encoding_lines(gzip: bool) -> Seq<Seq<u8>> {
    if gzip {
        seq![ascii("Content-Encoding: gzip")]
    } else {
        Seq::empty()
    }
}

/// The message framed around `body`: earlier `Content-Length` headers
/// are gone, the other headers stay in order, the content encoding
/// follows if gzip was applied, and one `Content-Length` header with the
/// length of `body` ends the list.
pub open spec fn framed(m: Message, body: Seq<u8>, gzip: bool) -> Message {
    Message {
        status: m.status,
        reason: m.reason,
        headers: without_content_length(m.headers) + encoding_lines(gzip) + seq![
            content_length_line(body.len()),
        ],
        body,
    }
}

/// The message with its body sent as it is.
pub open spec fn identity(m: Message) -> Message {
    framed(m, m.body, false)
}

/// The message with its body compressed.
pub open spec fn gzipped(m: Message) -> Message {
    framed(m, gzip_bytes(m.body), true)
}

/// The message sent when the server itself fails.
pub open spec fn internal_error() -> Message {
    plain(500, ascii("Internal Server Error"))
}

/// The gzip stream that the compressor makes of `data` at its default level.
pub uninterp spec fn gzip_bytes(data: Seq<u8>) -> Seq<u8>;

/// `std::io::Error`, the error of the compressor's writer. Opaque here:
/// it is only told apart from success.
#[verifier::external_type_specification]
#[verifier::external_body]
pub struct ExIoError(std::io::Error);

/// Compresses `data` with `flate2::write::GzEncoder` (`new` on an empty
/// vector at `Compression::default()`, `write_all`, `finish`). Believed,
/// not proved: when the encoder reports success, what it wrote is the
/// gzip stream of `data`. Nothing is claimed about when it fails.
#[verifier::external_body]
fn gzip(data: &[u8]) -> (r: Result<Vec<u8>, std::io::Error>)
    ensures
        r matches Ok(v) ==> v@ == gzip_bytes(data@),
{
    let mut encoder = flate2::write::GzEncoder::new(Vec::new(), flate2::Compression::default());
    encoder.write_all(data)?;
    encoder.finish()
}

/// Whether a comma-separated list has `token` among its trimmed items.
pub fn contains_token(value: &[u8], token: &[u8]) -> (r: bool)
    ensures
        r == has_token(value@, token@),
{
    let n: usize = value.len();
    let mut start: usize = 0;
    let mut i: usize = 0;
    assert(value@.skip(0) =~= value@);
    while i < n
        invariant
            n == value@.len(),
            start <= i <= n,
            forall|j: int| start <= j < i ==> value@[j] != COMMA,
            has_token(value@, token@) == has_token(value@.skip(start as int), token@),
        decreases n - i,
    {
        if value[i] == COMMA {
            let ghost rest = value@.skip(start as int);
            proof {
                lemma_index_of(rest, COMMA, i - start);
                assert(rest.skip(i - start + 1) =~= value@.skip(i + 1));
                assert(rest.take(i - start) =~= value@.subrange(start as int, i as int));
            }
            let item = trim(vstd::slice::slice_subrange(value, start, i));
            if same(item.as_slice(), token) {
                return true;
            }
            start = i + 1;
        }
        i += 1;
    }
    proof {
        let rest = value@.skip(start as int);
        lemma_index_of(rest, COMMA, n - start);
        assert(rest =~= value@.subrange(start as int, n as int));
    }
    let item = trim(vstd::slice::slice_subrange(value, start, n));
    same(item.as_slice(), token)
}

/// Whether the request asks for a gzip body.
pub fn negotiate(accept: Option<&Vec<u8>>) -> (r: bool)
    ensures
        r == wants_gzip(
            match accept {
                Some(value) => Some(value@),
                None => None,
            },
        ),
{
    match accept {
        Some(value) => {
            let token = literal("gzip");
            contains_token(value.as_slice(), token.as_slice())
        },
        None => false,
    }
}

/// Whether a header line is a `Content-Length` header.
pub fn names_content_length(line: &[u8]) -> (r: bool)
    ensures
        r == is_content_length(line@),
{
    match parse_header(line) {
        Some((name, _)) => {
            let key = literal("Content-Length");
            same(name.as_slice(), key.as_slice())
        },
        None => false,
    }
}

/// The header line that declares a body of `n` octets.
pub fn content_length(n: usize) -> (line: Vec<u8>)
    ensures
        line@ == content_length_line(n as nat),
{
    let mut line: Vec<u8> = literal("Content-Length: ");
    push_digits(&mut line, n as u64);
    line
}

/// Frames `res` around `body`; `gzip` says whether `body` is compressed.
pub fn frame(res: Response, body: Vec<u8>, gzip: bool) -> (bin: BinResponse)
    ensures
        bin@ == framed(res@, body@, gzip),
{
    let ghost m = res@;
    let mut bin = BinResponse::from(res);
    let mut headers: Vec<Vec<u8>> = Vec::new();
    let mut i: usize = 0;
    while i < bin.headers.len()
        invariant
            i <= bin.headers@.len(),
            lines(headers@) == without_content_length(lines(bin.headers@).take(i as int)),
        decreases bin.headers@.len() - i,
    {
        let ghost before = lines(headers@);
        let line: &Vec<u8> = &bin.headers[i];
        proof {
            let hs = lines(bin.headers@);
            assert(hs.take(i + 1).drop_last() =~= hs.take(i as int));
            assert(hs.take(i + 1).last() == line@);
        }
        if !names_content_length(line.as_slice()) {
            let copy = copy_range(line.as_slice(), 0, line.len());
            assert(copy@ =~= line@);
            headers.push(copy);
            assert(lines(headers@) =~= before.push(line@));
        }
        i += 1;
    }
    assert(lines(bin.headers@).take(i as int) =~= lines(bin.headers@));
    let ghost kept = lines(headers@);
    if gzip {
        headers.push(literal("Content-Encoding: gzip"));
    }
    let ghost marked = lines(headers@);
    assert(marked =~= kept + encoding_lines(gzip));
    headers.push(content_length(body.len()));
    assert(lines(headers@) =~= marked + seq![content_length_line(body@.len())]);
    bin.headers = headers;
    bin.body = body;
    bin
}

/// Frames a response once the outcome of compression is known: with
/// `None` the body goes out as it is, with `Some` the compressed octets
/// take its place and the response is marked as gzip.
pub fn encode_with(res: Response, compressed: Option<Vec<u8>>) -> (bin: BinResponse)
    ensures
        bin@ == match compressed {
            Some(z) => framed(res@, z@, true),
            None => identity(res@),
        },
{
    match compressed {
        Some(z) => frame(res, z, true),
        None => {
            let mut res = res;
            let mut body: Vec<u8> = Vec::new();
            std::mem::swap(&mut res.body, &mut body);
            frame(res, body, false)
        },
    }
}

/// Encodes a response for a request with the given `Accept-Encoding`
/// value, if it has one.
///
/// Unless gzip is asked for, the body goes out as it is. If it is asked
/// for, the body is compressed; should the compressor fail, the reply is
/// `500 Internal Server Error` instead.
pub fn encode(res: Response, accept: Option<&Vec<u8>>) -> (bin: BinResponse)
    ensures
        !wants_gzip(
            match accept {
                Some(value) => Some(value@),
                None => None,
            },
        ) ==> bin@ == identity(res@),
        wants_gzip(
            match accept {
                Some(value) => Some(value@),
                None => None,
            },
        ) ==> bin@ == gzipped(res@) || bin@ == identity(internal_error()),
{
    if negotiate(accept) {
        match gzip(res.body.as_slice()) {
            Ok(z) => encode_with(res, Some(z)),
            Err(_) => encode_with(Response::with_status(500, "Internal Server Error"), None),
        }
    } else {
        encode_with(res, None)
    }
}

} // verus!
