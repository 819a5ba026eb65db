//! What holds of the pipeline as a whole, proved from the definitions
//! that the functions' contracts are stated in.

use vstd::prelude::*;
use vstd::string::*;
use crate::connect::{accept_encoding, compresses, file_action, reply_of, sent};
use crate::encode::{
    content_length_line, framed, gzip_bytes, identity, is_content_length, wants_gzip,
    without_content_length,
};
use crate::files::{safe_name, FileActionView, FileEventView};
use crate::get::{bad_request, file_reply, missing_user_agent, not_found, text_reply};
use crate::headers::{header_map, split_header, well_formed, COLON};
use crate::path::{segments, SLASH};
use crate::request::RequestView;
use crate::response::{plain, Message, Reply};
use crate::text::{ascii, lemma_index_of, lowered, trimmed};

verus! {

/// A path made of a keyword between slashes and one more segment has
/// exactly these two segments.
pub proof fn lemma_two_segments(keyword: Seq<u8>, s: Seq<u8>)
    requires
        keyword.len() > 0,
        s.len() > 0,
        forall|i: int| 0 <= i < keyword.len() ==> keyword[i] != SLASH,
        forall|i: int| 0 <= i < s.len() ==> s[i] != SLASH,
    ensures
        segments(seq![SLASH] + keyword + seq![SLASH] + s) == seq![keyword, s],
{
    let path = seq![SLASH] + keyword + seq![SLASH] + s;
    let tail = keyword + seq![SLASH] + s;
    assert(path.skip(1) =~= tail);
    lemma_index_of(tail, SLASH, keyword.len() as int);
    assert(tail.take(keyword.len() as int) =~= keyword);
    assert(tail.skip(keyword.len() as int + 1) =~= s);
    lemma_index_of(s, SLASH, s.len() as int);
    assert(segments(s) == seq![s]);
    assert(segments(tail) == seq![keyword] + seq![s]);
    assert(seq![keyword] + seq![s] =~= seq![keyword, s]);
}

/// No line that the filter keeps is a `Content-Length` header.
pub proof fn lemma_without_content_length(hs: Seq<Seq<u8>>)
    ensures
        forall|i: int|
            0 <= i < without_content_length(hs).len() ==> !is_content_length(
                #[trigger] without_content_length(hs)[i],
            ),
    decreases hs.len(),
{
    if hs.len() > 0 {
        lemma_without_content_length(hs.drop_last());
        let rest = without_content_length(hs.drop_last());
        assert forall|i: int| 0 <= i < without_content_length(hs).len() implies !is_content_length(
            #[trigger] without_content_length(hs)[i],
        ) by {
            if i < rest.len() {
                assert(without_content_length(hs)[i] == rest[i]);
            }
        }
    }
}

/// The line that declares the body's length is a `Content-Length`
/// header; the lines for content type and content encoding are not.
pub proof fn lemma_header_lines(n: nat)
    ensures
        is_content_length(content_length_line(n)),
        !is_content_length(ascii("Content-Encoding: gzip")),
        !is_content_length(ascii("Content-Type: text/plain")),
        !is_content_length(ascii("Content-Type: application/octet-stream")),
{
    broadcast use is_ascii_spec_bytes;

    reveal_strlit("Content-Length: ");
    reveal_strlit("Content-Length");
    reveal_strlit("Content-Encoding: gzip");
    reveal_strlit("Content-Type: text/plain");
    reveal_strlit("Content-Type: application/octet-stream");
    assert(is_ascii("Content-Length: "));
    assert(is_ascii("Content-Length"));
    assert(is_ascii("Content-Encoding: gzip"));
    assert(is_ascii("Content-Type: text/plain"));
    assert(is_ascii("Content-Type: application/octet-stream"));
    let key = ascii("Content-Length");
    let line = content_length_line(n);
    lemma_index_of(line, COLON, 14);
    assert(line.take(14) =~= key);
    assert(trimmed(key) == key);
    let coding = ascii("Content-Encoding: gzip");
    lemma_index_of(coding, COLON, 16);
    assert(trimmed(coding.take(16)) == coding.take(16));
    let text = ascii("Content-Type: text/plain");
    lemma_index_of(text, COLON, 12);
    assert(trimmed(text.take(12)) == text.take(12));
    let octets = ascii("Content-Type: application/octet-stream");
    lemma_index_of(octets, COLON, 12);
    assert(trimmed(octets.take(12)) == octets.take(12));
}

/// Framing: whatever headers the handler set, the framed message has one
/// `Content-Length` header, the last line, and it gives the length of
/// the body that is sent.
pub proof fn lemma_one_content_length(m: Message, body: Seq<u8>, gzip: bool)
    ensures
        framed(m, body, gzip).headers.last() == content_length_line(body.len()),
        forall|i: int|
            0 <= i < framed(m, body, gzip).headers.len() ==> (is_content_length(
                #[trigger] framed(m, body, gzip).headers[i],
            ) <==> i == framed(m, body, gzip).headers.len() - 1),
{
    lemma_without_content_length(m.headers);
    lemma_header_lines(body.len());
}

/// A single line that is no `Content-Length` header passes the filter.
pub proof fn lemma_single_kept(line: Seq<u8>)
    requires
        !is_content_length(line),
    ensures
        without_content_length(seq![line]) == seq![line],
{
    let one = seq![line];
    assert(one.last() == line);
    assert(without_content_length(one.drop_last()) =~= Seq::<Seq<u8>>::empty());
    assert(without_content_length(one) =~= one);
}

/// A reply with a text body keeps its headers when it is framed with
/// its body as it is.
pub proof fn lemma_text_reply_framed(body: Seq<u8>)
    ensures
        identity(text_reply(body)) == text_reply(body),
        identity(file_reply(body)) == file_reply(body),
{
    lemma_header_lines(body.len());
    let text = text_reply(body).headers;
    assert(text.drop_last() =~= seq![ascii("Content-Type: text/plain")]);
    lemma_single_kept(ascii("Content-Type: text/plain"));
    assert(identity(text_reply(body)).headers =~= text);
    let file = file_reply(body).headers;
    assert(file.drop_last() =~= seq![ascii("Content-Type: application/octet-stream")]);
    lemma_single_kept(ascii("Content-Type: application/octet-stream"));
    assert(identity(file_reply(body)).headers =~= file);
}

/// Echo: a `GET` request with well-formed headers for `/echo/<s>` is
/// answered `200` with exactly `<s>` as its body, and the one
/// `Content-Length` header gives the length of `<s>`.
pub proof fn lemma_echo(req: RequestView, file: FileEventView, s: Seq<u8>)
    requires
        well_formed(req.headers),
        req.method == ascii("GET"),
        req.path == ascii("/echo/") + s,
        s.len() > 0,
        forall|i: int| 0 <= i < s.len() ==> s[i] != SLASH,
        !wants_gzip(accept_encoding(req)),
    ensures
        sent(req, file).status == 200,
        sent(req, file).body == s,
        sent(req, file).headers == seq![
            ascii("Content-Type: text/plain"),
            content_length_line(s.len()),
        ],
{
    broadcast use is_ascii_spec_bytes;

    reveal_strlit("/echo/");
    reveal_strlit("echo");
    assert(is_ascii("/echo/"));
    assert(is_ascii("echo"));
    let keyword = ascii("echo");
    assert(req.path =~= seq![SLASH] + keyword + seq![SLASH] + s);
    lemma_two_segments(keyword, s);
    assert(lowered(keyword) =~= keyword);
    assert(reply_of(req, file) == Reply::Pass(text_reply(s)));
    lemma_text_reply_framed(s);
}

/// Files: what a `POST` to `/files/<f>` has written, a later `GET` of
/// `/files/<f>` returns. The `POST` asks for its body to be written
/// under the name `<f>`; the `GET` asks for the file of that name; and
/// when the store hands back the octets written, they are the body of
/// the `200` answer, with `Content-Length` giving their number.
pub proof fn lemma_file_round_trip(post: RequestView, get: RequestView, f: Seq<u8>)
    requires
        well_formed(post.headers),
        well_formed(get.headers),
        post.method == ascii("POST"),
        get.method == ascii("GET"),
        post.path == ascii("/files/") + f,
        get.path == post.path,
        f.len() > 0,
        forall|i: int| 0 <= i < f.len() ==> f[i] != SLASH,
        safe_name(f),
        !wants_gzip(accept_encoding(get)),
    ensures
        file_action(post) == FileActionView::Write(f, post.body),
        sent(post, FileEventView::Written).status == 201,
        file_action(get) == FileActionView::Read(f),
        sent(get, FileEventView::Contents(post.body)) == file_reply(post.body),
{
    broadcast use is_ascii_spec_bytes;

    reveal_strlit("/files/");
    reveal_strlit("files");
    reveal_strlit("echo");
    reveal_strlit("user-agent");
    reveal_strlit("GET");
    reveal_strlit("POST");
    assert(is_ascii("/files/"));
    assert(is_ascii("files"));
    assert(is_ascii("echo"));
    assert(is_ascii("user-agent"));
    assert(is_ascii("GET"));
    assert(is_ascii("POST"));
    let keyword = ascii("files");
    assert(post.path =~= seq![SLASH] + keyword + seq![SLASH] + f);
    lemma_two_segments(keyword, f);
    assert(lowered(keyword) =~= keyword);
    assert(ascii("echo").len() != keyword.len());
    assert(ascii("user-agent").len() != keyword.len());
    assert(ascii("GET").len() != ascii("POST").len());
    lemma_text_reply_framed(post.body);
}

/// A missing file: `GET /files/<f>` is answered `404` when the store
/// reports that there is no such file, whatever else the request holds.
pub proof fn lemma_missing_file(req: RequestView, f: Seq<u8>)
    requires
        well_formed(req.headers),
        req.method == ascii("GET"),
        req.path == ascii("/files/") + f,
        f.len() > 0,
        forall|i: int| 0 <= i < f.len() ==> f[i] != SLASH,
        safe_name(f),
    ensures
        reply_of(req, FileEventView::Missing) == Reply::Terminal(not_found()),
        sent(req, FileEventView::Missing).status == 404,
        sent(req, FileEventView::Missing).body == Seq::<u8>::empty(),
{
    broadcast use is_ascii_spec_bytes;

    reveal_strlit("/files/");
    reveal_strlit("files");
    reveal_strlit("echo");
    reveal_strlit("user-agent");
    assert(is_ascii("/files/"));
    assert(is_ascii("files"));
    assert(is_ascii("echo"));
    assert(is_ascii("user-agent"));
    let keyword = ascii("files");
    assert(req.path =~= seq![SLASH] + keyword + seq![SLASH] + f);
    lemma_two_segments(keyword, f);
    assert(lowered(keyword) =~= keyword);
    assert(ascii("echo").len() != keyword.len());
    assert(ascii("user-agent").len() != keyword.len());
}

/// Compression: where a request that accepts gzip is answered through
/// the encoder, the body sent is the gzip stream of the body sent to
/// the same request without its `Accept-Encoding` header, under the same
/// status line.
pub proof fn lemma_gzip_matches_plain(req: RequestView, bare: RequestView, file: FileEventView)
    requires
        well_formed(req.headers),
        well_formed(bare.headers),
        bare.method == req.method,
        bare.path == req.path,
        bare.body == req.body,
        header_map(bare.headers) == header_map(req.headers).remove(ascii("Accept-Encoding")),
        compresses(req, file),
    ensures
        !compresses(bare, file),
        sent(req, file).body == gzip_bytes(sent(bare, file).body),
        sent(req, file).status == sent(bare, file).status,
        sent(req, file).reason == sent(bare, file).reason,
{
    broadcast use is_ascii_spec_bytes;

    reveal_strlit("Accept-Encoding");
    reveal_strlit("User-Agent");
    assert(is_ascii("Accept-Encoding"));
    assert(is_ascii("User-Agent"));
    assert(ascii("Accept-Encoding").len() != ascii("User-Agent").len());
    assert(reply_of(bare, file) == reply_of(req, file));
}

/// The root path: `GET /` is answered `200` with an empty body,
/// whatever headers the request has.
pub proof fn lemma_root(req: RequestView, file: FileEventView)
    requires
        well_formed(req.headers),
        req.method == ascii("GET"),
        req.path == ascii("/"),
    ensures
        reply_of(req, file) == Reply::Pass(plain(200, ascii("OK"))),
        sent(req, file).status == 200,
        !compresses(req, file) ==> sent(req, file).body == Seq::<u8>::empty(),
{
    broadcast use is_ascii_spec_bytes;

    reveal_strlit("/");
    assert(is_ascii("/"));
    let path = ascii("/");
    assert(path.skip(1) =~= Seq::<u8>::empty());
    assert(segments(path.skip(1)) =~= Seq::<Seq<u8>>::empty());
    assert(segments(path) =~= Seq::<Seq<u8>>::empty());
}

/// A method other than `GET` and `POST` is answered `400`, whatever the
/// path and whatever the file store reported.
pub proof fn lemma_unsupported_method(req: RequestView, file: FileEventView)
    requires
        req.method != ascii("GET"),
        req.method != ascii("POST"),
    ensures
        sent(req, file).status == 400,
        file_action(req) == FileActionView::Nothing,
{
}

/// A header line without a colon ends the exchange with `400` and an
/// empty body; no handler runs and no file is touched.
pub proof fn lemma_malformed_header(req: RequestView, file: FileEventView, i: int)
    requires
        0 <= i < req.headers.len(),
        split_header(req.headers[i]) is None,
    ensures
        reply_of(req, file) == Reply::Terminal(bad_request()),
        sent(req, file).status == 400,
        sent(req, file).body == Seq::<u8>::empty(),
        file_action(req) == FileActionView::Nothing,
{
}

/// The `User-Agent` route: the header's value comes back as the body of
/// a `200` answer; without the header the answer is `400` with a body
/// that says so.
pub proof fn lemma_user_agent(req: RequestView, file: FileEventView)
    requires
        well_formed(req.headers),
        req.method == ascii("GET"),
        req.path == ascii("/user-agent"),
    ensures
        reply_of(req, file) == if header_map(req.headers).contains_key(ascii("User-Agent")) {
            Reply::Pass(text_reply(header_map(req.headers)[ascii("User-Agent")]))
        } else {
            Reply::Terminal(missing_user_agent())
        },
{
    broadcast use is_ascii_spec_bytes;

    reveal_strlit("/user-agent");
    reveal_strlit("user-agent");
    reveal_strlit("echo");
    assert(is_ascii("/user-agent"));
    assert(is_ascii("user-agent"));
    assert(is_ascii("echo"));
    let path = ascii("/user-agent");
    let keyword = ascii("user-agent");
    assert(path.skip(1) =~= keyword);
    lemma_index_of(keyword, SLASH, 10);
    assert(segments(keyword) == seq![keyword]);
    assert(lowered(keyword) =~= keyword);
    assert(ascii("echo").len() != keyword.len());
}

} // verus!
