//! Serving local files over the `stream` URI scheme, whole or by byte range.
//!
//! The functions here decide what a response holds: its status, its headers
//! and which stretches of the file make up its body. Reading those stretches
//! is left to the caller, who has the file open.

use vstd::prelude::*;
use vstd::string::*;
use vstd::utf8::*;
use crate::library::lemma_deep_view_push;
use crate::text::{decimal, has_prefix, push_char, push_decimal, same_text, starts_with};

verus! {

/// The most bytes that one range of a response carries.
pub const MAX_LEN: u64 = 1_024_000;

/// What `percent_encoding::percent_decode` followed by `decode_utf8_lossy`
/// makes of a string with the given characters.
pub uninterp spec fn percent_decoded(encoded: Seq<char>) -> Seq<char>;

/// The first media type that `mime_guess` lists for the path, if it lists
/// any.
pub uninterp spec fn guessed_mime(path: Seq<char>) -> Option<Seq<char>>;

/// What `http_range::HttpRange::parse` makes of a `Range` header for a file
/// of `len` bytes: the start and length of each range, or nothing where it
/// reports an error.
pub uninterp spec fn parsed_ranges(header: Seq<char>, len: u64) -> Option<Seq<(u64, u64)>>;

/// Undoes the percent-encoding of `encoded` and reads the bytes as UTF-8,
/// with the replacement character for what is not.
///
/// Trusted: calls `percent_encoding::percent_decode` on the bytes of the
/// string and `decode_utf8_lossy` on the outcome; both depend on the input
/// alone.
#[verifier::external_body]
fn percent_decode(encoded: &str) -> (r: String)
    ensures
        r@ == percent_decoded(encoded@),
{
    percent_encoding::percent_decode(encoded.as_bytes()).decode_utf8_lossy().to_string()
}

/// The media type that the extension of `path` suggests.
///
/// Trusted: calls `mime_guess::from_path` and takes the first guess, which
/// is looked up in a fixed table by the extension of the path and written
/// out as the `mime` crate writes a media type.
#[verifier::external_body]
fn guess_mime(path: &str) -> (r: Option<String>)
    ensures
        r.deep_view() == guessed_mime(path@),
{
    mime_guess::from_path(path).first().map(|m| m.to_string())
}

/// The ranges of a header, each by its start and length.
pub open spec fn ranges_view(ranges: Option<Vec<(u64, u64)>>) -> Option<Seq<(u64, u64)>> {
    match ranges {
        Some(v) => Some(v@),
        None => None,
    }
}

/// Parses a `Range` header against a file of `len` bytes.
///
/// Trusted: calls `http_range::HttpRange::parse`, which is a function of the
/// header and the length, and hands out the start and length of each range,
/// or nothing where it fails.
#[verifier::external_body]
fn parse_ranges(header: &str, len: u64) -> (r: Option<Vec<(u64, u64)>>)
    ensures
        ranges_view(r) == parsed_ranges(header@, len),
{
    match http_range::HttpRange::parse(header, len) {
        Ok(ranges) => Some(ranges.iter().map(|r| (r.start, r.length)).collect()),
        Err(_) => None,
    }
}

/// A number to tell multipart boundaries apart.
///
/// Trusted: calls `rand::thread_rng` and `Rng::gen`. Nothing is claimed of
/// the value.
#[verifier::external_body]
fn random_number() -> u64 {
    rand::Rng::gen::<u64>(&mut rand::thread_rng())
}

/// One stretch of a response body.
#[derive(Clone, Debug, PartialEq, Eq)]
pub enum BodyPart {
    /// These bytes.
    Bytes(Vec<u8>),
    /// The bytes of the file from `start` to `end`, both included.
    FileRange { start: u64, end: u64 },
}

/// A `BodyPart` as specifications see it: strings and vectors by their contents.
pub enum BodyPartView {
    Bytes(Seq<u8>),
    FileRange { start: u64, end: u64 },
}

impl DeepView for BodyPart {
    type V = BodyPartView;

    open spec fn deep_view(&self) -> BodyPartView {
        match self {
            BodyPart::Bytes(bytes) => BodyPartView::Bytes(bytes@),
            BodyPart::FileRange { start, end } => BodyPartView::FileRange {
                start: *start,
                end: *end,
            },
        }
    }
}

/// A response: status, headers in order, and the stretches of the body.
#[derive(Clone, Debug, PartialEq, Eq)]
pub struct Response {
    pub status: u16,
    pub headers: Vec<(String, String)>,
    pub body: Vec<BodyPart>,
}

/// A `Response` as specifications see it: strings and vectors by their contents.
pub struct ResponseView {
    pub status: u16,
    pub headers: Seq<(Seq<char>, Seq<char>)>,
    pub body: Seq<BodyPartView>,
}

impl DeepView for Response {
    type V = ResponseView;

    open spec fn deep_view(&self) -> ResponseView {
        ResponseView {
            status: self.status,
            headers: self.headers.deep_view(),
            body: self.body.deep_view(),
        }
    }
}

/// What a request asks of the file.
#[derive(Clone, Debug, PartialEq, Eq)]
pub enum RangeRequest {
    /// No `Range` header: the whole file.
    Whole,
    /// A `Range` header that could not be parsed, or that no part of the file
    /// answers.
    Invalid,
    /// The ranges of the header, each by its start and length.
    Ranges(Vec<(u64, u64)>),
}

/// A `RangeRequest` as specifications see it: strings and vectors by their contents.
pub enum RangeRequestView {
    Whole,
    Invalid,
    Ranges(Seq<(u64, u64)>),
}

impl DeepView for RangeRequest {
    type V = RangeRequestView;

    open spec fn deep_view(&self) -> RangeRequestView {
        match self {
            RangeRequest::Whole => RangeRequestView::Whole,
            RangeRequest::Invalid => RangeRequestView::Invalid,
            RangeRequest::Ranges(ranges) => RangeRequestView::Ranges(ranges@),
        }
    }
}

/// The prefix of every URI of the scheme.
pub open spec fn scheme_prefix() -> Seq<char> {
    "stream://localhost/"@
}

/// The file path that a URI of the scheme names, if it is one.
pub open spec fn uri_path(uri: Seq<char>) -> Option<Seq<char>> {
    if has_prefix(uri, scheme_prefix()) {
        Some(percent_decoded(uri.skip(scheme_prefix().len() as int)))
    } else {
        None
    }
}

/// The media type to serve the file at `path` with: the guess for its
/// extension, with `audio/mp4` in place of `audio/m4a`, or
/// `application/octet-stream` where there is no guess.
pub open spec fn media_type(path: Seq<char>) -> Seq<char> {
    match guessed_mime(path) {
        Some(m) => if m == "audio/m4a"@ {
            "audio/mp4"@
        } else {
            m
        },
        None => "application/octet-stream"@,
    }
}

/// What a `Range` header asks of a file of `len` bytes.
pub open spec fn requested(header: Option<Seq<char>>, len: u64) -> RangeRequestView {
    match header {
        None => RangeRequestView::Whole,
        Some(h) => match parsed_ranges(h, len) {
            Some(ranges) => RangeRequestView::Ranges(ranges),
            None => RangeRequestView::Invalid,
        },
    }
}

/// A range of `length` bytes from `start` lies within a file of `len` bytes
/// and is not empty.
pub open spec fn is_satisfiable(start: u64, length: u64, len: u64) -> bool {
    length >= 1 && start + length <= len
}

/// The last byte served of a range of `length` bytes from `start`: the last
/// byte of the range, or of the first `MAX_LEN` bytes of it.
pub open spec fn clamped_end(start: u64, length: u64) -> int {
    if length <= MAX_LEN {
        start + length - 1
    } else {
        start + MAX_LEN - 1
    }
}

/// The ranges to serve, each by its first and last byte: those of `ranges`
/// that lie within the file, clamped, in order.
pub open spec fn satisfiable(ranges: Seq<(u64, u64)>, len: u64) -> Seq<(u64, u64)> {
    ranges.filter(|r: (u64, u64)| is_satisfiable(r.0, r.1, len)).map_values(
        |r: (u64, u64)| (r.0, clamped_end(r.0, r.1) as u64),
    )
}

/// The value of a `Content-Range` header for the bytes `start` to `end` of
/// `len`.
pub open spec fn content_range(start: u64, end: u64, len: u64) -> Seq<char> {
    "bytes "@ + decimal(start as nat) + seq!['-'] + decimal(end as nat) + seq!['/'] + decimal(
        len as nat,
    )
}

/// The boundary of a multipart response numbered `n`.
pub open spec fn boundary(n: u64) -> Seq<char> {
    "sadasq2e"@ + decimal(n as nat)
}

/// The line that separates the parts of a multipart body, and ends it.
pub open spec fn delimiter(n: u64) -> Seq<char> {
    "\r\n--"@ + boundary(n) + "\r\n"@
}

/// What stands before the bytes of one part of a multipart body.
pub open spec fn part_head(mime: Seq<char>, range: (u64, u64), len: u64, n: u64) -> Seq<char> {
    delimiter(n) + "Content-Type: "@ + mime + "\r\n"@ + "Content-Range: "@ + content_range(
        range.0,
        range.1,
        len,
    ) + "\r\n"@ + "\r\n"@
}

/// The parts of a multipart body for `ranges`, without the closing delimiter.
pub open spec fn multipart_parts(mime: Seq<char>, ranges: Seq<(u64, u64)>, len: u64, n: u64) -> Seq<
    BodyPartView,
>
    decreases ranges.len(),
{
    if ranges.len() == 0 {
        Seq::empty()
    } else {
        multipart_parts(mime, ranges.drop_last(), len, n).push(
            BodyPartView::Bytes(encode_utf8(part_head(mime, ranges.last(), len, n))),
        ).push(BodyPartView::FileRange { start: ranges.last().0, end: ranges.last().1 })
    }
}

/// The response to a request that is denied access to the file.
pub open spec fn forbidden_response() -> ResponseView {
    ResponseView {
        status: 403,
        headers: seq![("Access-Control-Allow-Origin"@, "*"@)],
        body: seq![BodyPartView::Bytes(encode_utf8("File not in scope"@))],
    }
}

/// The response to a range request that the file cannot answer.
pub open spec fn unsatisfiable_response(len: u64) -> ResponseView {
    ResponseView {
        status: 416,
        headers: seq![("Content-Range"@, "bytes */"@ + decimal(len as nat))],
        body: Seq::empty(),
    }
}

/// The response that carries the whole file.
pub open spec fn whole_response(mime: Seq<char>, len: u64) -> ResponseView {
    ResponseView {
        status: 200,
        headers: seq![
            ("Content-Type"@, mime),
            ("Content-Length"@, decimal(len as nat)),
            ("Access-Control-Allow-Origin"@, "*"@),
            ("Access-Control-Allow-Headers"@, "*"@),
            ("Access-Control-Allow-Methods"@, "*"@),
        ],
        body: if len == 0 {
            Seq::empty()
        } else {
            seq![BodyPartView::FileRange { start: 0, end: (len - 1) as u64 }]
        },
    }
}

/// The response that carries one range.
pub open spec fn single_response(mime: Seq<char>, range: (u64, u64), len: u64) -> ResponseView {
    ResponseView {
        status: 206,
        headers: seq![
            ("Content-Type"@, mime),
            ("Content-Range"@, content_range(range.0, range.1, len)),
            ("Content-Length"@, decimal((range.1 - range.0 + 1) as nat)),
            ("Access-Control-Allow-Origin"@, "*"@),
        ],
        body: seq![BodyPartView::FileRange { start: range.0, end: range.1 }],
    }
}

/// The response that carries several ranges, as `multipart/byteranges`.
pub open spec fn multipart_response(mime: Seq<char>, ranges: Seq<(u64, u64)>, len: u64, n: u64)
    -> ResponseView {
    ResponseView {
        status: 206,
        headers: seq![
            ("Content-Type"@, "multipart/byteranges; boundary="@ + boundary(n)),
            ("Access-Control-Allow-Origin"@, "*"@),
        ],
        body: multipart_parts(mime, ranges, len, n).push(
            BodyPartView::Bytes(encode_utf8(delimiter(n))),
        ),
    }
}

/// The response to a request for a file of `len` bytes and media type
/// `mime`, with `n` to number the boundary of a multipart body.
pub open spec fn planned(mime: Seq<char>, len: u64, request: RangeRequestView, n: u64)
    -> ResponseView {
    match request {
        RangeRequestView::Whole => whole_response(mime, len),
        RangeRequestView::Invalid => unsatisfiable_response(len),
        RangeRequestView::Ranges(ranges) => {
            let serve = satisfiable(ranges, len);
            if serve.len() == 0 {
                unsatisfiable_response(len)
            } else if serve.len() == 1 {
                single_response(mime, serve[0], len)
            } else {
                multipart_response(mime, serve, len, n)
            }
        },
    }
}

/// The response to a request for the file at `path`, of `len` bytes, where
/// the host has said whether the path is in scope.
pub open spec fn response_for(
    path: Seq<char>,
    allowed: bool,
    range: Option<Seq<char>>,
    len: u64,
    n: u64,
) -> ResponseView {
    if allowed {
        planned(media_type(path), len, requested(range, len), n)
    } else {
        forbidden_response()
    }
}

/// The request is for ranges and none can be served: the header could not be
/// parsed, or no range of it lies within the file.
pub open spec fn unanswerable(request: RangeRequestView, len: u64) -> bool {
    match request {
        RangeRequestView::Whole => false,
        RangeRequestView::Invalid => true,
        RangeRequestView::Ranges(ranges) => satisfiable(ranges, len).len() == 0,
    }
}

/// The bytes that one stretch of a body stands for, given the file.
pub open spec fn part_bytes(part: BodyPartView, file: Seq<u8>) -> Seq<u8> {
    match part {
        BodyPartView::Bytes(bytes) => bytes,
        BodyPartView::FileRange { start, end } => file.subrange(start as int, end + 1),
    }
}

/// The bytes of a whole body, given the file.
pub open spec fn body_bytes(parts: Seq<BodyPartView>, file: Seq<u8>) -> Seq<u8>
    decreases parts.len(),
{
    if parts.len() == 0 {
        Seq::empty()
    } else {
        body_bytes(parts.drop_last(), file) + part_bytes(parts.last(), file)
    }
}

/// Every stretch of the body lies within a file of `len` bytes.
pub open spec fn fits(parts: Seq<BodyPartView>, len: int) -> bool {
    forall|i: int|
        0 <= i < parts.len() ==> ((#[trigger] parts[i]) matches BodyPartView::FileRange {
            start,
            end,
        } ==> start <= end < len)
}

/// The ranges to serve are no more than were asked for, and each lies within
/// the file, runs forwards and is no longer than `MAX_LEN`.
pub proof fn served_ranges_lie_within(ranges: Seq<(u64, u64)>, len: u64)
    ensures
        satisfiable(ranges, len).len() <= ranges.len(),
        forall|i: int|
            0 <= i < satisfiable(ranges, len).len() ==> {
                let r = #[trigger] satisfiable(ranges, len)[i];
                r.0 <= r.1 < len && r.1 - r.0 < MAX_LEN
            },
{
    let keep = |r: (u64, u64)| is_satisfiable(r.0, r.1, len);
    let kept = ranges.filter(keep);
    ranges.lemma_filter_len(keep);
    assert forall|i: int| 0 <= i < satisfiable(ranges, len).len() implies {
        let r = #[trigger] satisfiable(ranges, len)[i];
        r.0 <= r.1 < len && r.1 - r.0 < MAX_LEN
    } by {
        ranges.lemma_filter_pred(keep, i);
        assert(keep(kept[i]));
    }
}

/// The ranges of a request that can be served, each by its first and last
/// byte, clamped to `MAX_LEN` bytes.
pub fn satisfiable_ranges(ranges: &Vec<(u64, u64)>, len: u64) -> (serve: Vec<(u64, u64)>)
    ensures
        serve@ == satisfiable(ranges@, len),
{
    let ghost keep = |r: (u64, u64)| is_satisfiable(r.0, r.1, len);
    let ghost clamp = |r: (u64, u64)| (r.0, clamped_end(r.0, r.1) as u64);
    let mut serve: Vec<(u64, u64)> = Vec::new();
    let mut i: usize = 0;
    proof {
        reveal(Seq::filter);
        assert(serve@ =~= ranges@.take(0).filter(keep).map_values(clamp));
    }
    while i < ranges.len()
        invariant
            keep == |r: (u64, u64)| is_satisfiable(r.0, r.1, len),
            clamp == |r: (u64, u64)| (r.0, clamped_end(r.0, r.1) as u64),
            i <= ranges.len(),
            serve@ == ranges@.take(i as int).filter(keep).map_values(clamp),
        decreases ranges.len() - i,
    {
        let (start, length) = ranges[i];
        proof {
            reveal(Seq::filter);
            let next = ranges@.take(i + 1);
            assert(next.drop_last() == ranges@.take(i as int));
            assert(next.last() == (start, length));
        }
        if length >= 1 && start <= len && length <= len - start {
            let span: u64 = if length <= MAX_LEN {
                length
            } else {
                MAX_LEN
            };
            let ghost before = ranges@.take(i as int).filter(keep);
            serve.push((start, start + (span - 1)));
            assert(serve@ =~= before.push((start, length)).map_values(clamp));
        }
        i += 1;
    }
    assert(ranges@.take(ranges@.len() as int) == ranges@);
    serve
}

/// The file path that the URI names: what follows the scheme prefix, with
/// its percent-encoding undone. `None` where the URI lacks the prefix.
pub fn path_of_uri(uri: &str) -> (path: Option<String>)
    ensures
        path.deep_view() == uri_path(uri@),
{
    let prefix = "stream://localhost/";
    if !starts_with(uri, prefix) {
        return None;
    }
    let from = prefix.unicode_len();
    let to = uri.unicode_len();
    let rest = uri.substring_char(from, to);
    assert(rest@ == uri@.skip(from as int));
    Some(percent_decode(rest))
}

/// The media type to serve the file at `path` with.
pub fn media_type_of(path: &str) -> (mime: String)
    ensures
        mime@ == media_type(path@),
{
    match guess_mime(path) {
        Some(m) => {
            if same_text(m.as_str(), "audio/m4a") {
                String::from_str("audio/mp4")
            } else {
                m
            }
        },
        None => String::from_str("application/octet-stream"),
    }
}

/// Reads the `Range` header of a request for a file of `len` bytes.
pub fn parse_range_header(header: Option<&str>, len: u64) -> (request: RangeRequest)
    ensures
        request.deep_view() == requested(header.deep_view(), len),
{
    match header {
        None => RangeRequest::Whole,
        Some(h) => match parse_ranges(h, len) {
            Some(ranges) => RangeRequest::Ranges(ranges),
            None => RangeRequest::Invalid,
        },
    }
}

fn header(name: &str, value: String) -> (h: (String, String))
    ensures
        h.deep_view() == (name@, value@),
{
    (String::from_str(name), value)
}

fn content_range_value(start: u64, end: u64, len: u64) -> (value: String)
    ensures
        value@ == content_range(start, end, len),
{
    let mut value = String::from_str("bytes ");
    push_decimal(&mut value, start);
    push_char(&mut value, '-');
    push_decimal(&mut value, end);
    push_char(&mut value, '/');
    push_decimal(&mut value, len);
    assert(value@ =~= content_range(start, end, len));
    value
}

fn boundary_text(n: u64) -> (text: String)
    ensures
        text@ == boundary(n),
{
    let mut text = String::from_str("sadasq2e");
    push_decimal(&mut text, n);
    text
}

fn delimiter_text(n: u64) -> (text: String)
    ensures
        text@ == delimiter(n),
{
    let mut text = String::from_str("\r\n--");
    text.append(boundary_text(n).as_str());
    text.append("\r\n");
    text
}

/// The response to a request for a file that is not in scope: status 403.
pub fn forbidden() -> (response: Response)
    ensures
        response.deep_view() == forbidden_response(),
{
    let mut headers: Vec<(String, String)> = Vec::new();
    headers.push(header("Access-Control-Allow-Origin", String::from_str("*")));
    let mut body: Vec<BodyPart> = Vec::new();
    body.push(BodyPart::Bytes("File not in scope".as_bytes_vec()));
    let response = Response { status: 403, headers, body };
    assert(response.deep_view().headers =~= forbidden_response().headers);
    assert(response.deep_view().body =~= forbidden_response().body);
    response
}

fn unsatisfiable(len: u64) -> (response: Response)
    ensures
        response.deep_view() == unsatisfiable_response(len),
{
    let mut value = String::from_str("bytes */");
    push_decimal(&mut value, len);
    let mut headers: Vec<(String, String)> = Vec::new();
    headers.push(header("Content-Range", value));
    let response = Response { status: 416, headers, body: Vec::new() };
    assert(response.deep_view().headers =~= unsatisfiable_response(len).headers);
    assert(response.deep_view().body =~= unsatisfiable_response(len).body);
    response
}

fn whole(mime: &str, len: u64) -> (response: Response)
    ensures
        response.deep_view() == whole_response(mime@, len),
{
    let mut length = String::new();
    push_decimal(&mut length, len);
    let mut headers: Vec<(String, String)> = Vec::new();
    headers.push(header("Content-Type", String::from_str(mime)));
    headers.push(header("Content-Length", length));
    headers.push(header("Access-Control-Allow-Origin", String::from_str("*")));
    headers.push(header("Access-Control-Allow-Headers", String::from_str("*")));
    headers.push(header("Access-Control-Allow-Methods", String::from_str("*")));
    let mut body: Vec<BodyPart> = Vec::new();
    if len > 0 {
        body.push(BodyPart::FileRange { start: 0, end: len - 1 });
    }
    let response = Response { status: 200, headers, body };
    assert(response.deep_view().headers =~= whole_response(mime@, len).headers);
    assert(response.deep_view().body =~= whole_response(mime@, len).body);
    response
}

fn single(mime: &str, range: (u64, u64), len: u64) -> (response: Response)
    requires
        range.0 <= range.1,
        range.1 - range.0 < MAX_LEN,
    ensures
        response.deep_view() == single_response(mime@, range, len),
{
    let mut length = String::new();
    push_decimal(&mut length, range.1 - range.0 + 1);
    let mut headers: Vec<(String, String)> = Vec::new();
    headers.push(header("Content-Type", String::from_str(mime)));
    headers.push(header("Content-Range", content_range_value(range.0, range.1, len)));
    headers.push(header("Content-Length", length));
    headers.push(header("Access-Control-Allow-Origin", String::from_str("*")));
    let mut body: Vec<BodyPart> = Vec::new();
    body.push(BodyPart::FileRange { start: range.0, end: range.1 });
    let response = Response { status: 206, headers, body };
    assert(response.deep_view().headers =~= single_response(mime@, range, len).headers);
    assert(response.deep_view().body =~= single_response(mime@, range, len).body);
    response
}

fn part_head_bytes(mime: &str, range: (u64, u64), len: u64, n: u64) -> (bytes: Vec<u8>)
    ensures
        bytes@ == encode_utf8(part_head(mime@, range, len, n)),
{
    let mut head = delimiter_text(n);
    head.append("Content-Type: ");
    head.append(mime);
    head.append("\r\n");
    head.append("Content-Range: ");
    head.append(content_range_value(range.0, range.1, len).as_str());
    head.append("\r\n");
    head.append("\r\n");
    head.as_str().as_bytes_vec()
}

fn multipart(mime: &str, ranges: &Vec<(u64, u64)>, len: u64, n: u64) -> (response: Response)
    ensures
        response.deep_view() == multipart_response(mime@, ranges@, len, n),
{
    let mut value = String::from_str("multipart/byteranges; boundary=");
    value.append(boundary_text(n).as_str());
    let mut headers: Vec<(String, String)> = Vec::new();
    headers.push(header("Content-Type", value));
    headers.push(header("Access-Control-Allow-Origin", String::from_str("*")));
    let mut body: Vec<BodyPart> = Vec::new();
    let mut i: usize = 0;
    assert(body.deep_view() =~= multipart_parts(mime@, ranges@.take(0), len, n));
    while i < ranges.len()
        invariant
            i <= ranges.len(),
            body.deep_view() == multipart_parts(mime@, ranges@.take(i as int), len, n),
        decreases ranges.len() - i,
    {
        let range = ranges[i];
        proof {
            let next = ranges@.take(i + 1);
            assert(next.drop_last() == ranges@.take(i as int));
            assert(next.last() == range);
        }
        let ghost before = body;
        let head = BodyPart::Bytes(part_head_bytes(mime, range, len, n));
        body.push(head);
        let ghost between = body;
        let bytes = BodyPart::FileRange { start: range.0, end: range.1 };
        body.push(bytes);
        proof {
            lemma_deep_view_push(before, between, head);
            lemma_deep_view_push(between, body, bytes);
        }
        i += 1;
    }
    assert(ranges@.take(ranges@.len() as int) == ranges@);
    let ghost before = body;
    let closing = BodyPart::Bytes(delimiter_text(n).as_str().as_bytes_vec());
    body.push(closing);
    proof {
        lemma_deep_view_push(before, body, closing);
    }
    let response = Response { status: 206, headers, body };
    assert(response.deep_view().headers =~= multipart_response(mime@, ranges@, len, n).headers);
    response
}

/// Plans the response to a request for a file of `len` bytes and media type
/// `mime_type`.
///
/// Without a range the whole file is sent with status 200. A range request
/// that cannot be parsed, or none of whose ranges lies within the file, is
/// answered with status 416. One range to serve gives status 206 with that
/// range as the body; several give a `multipart/byteranges` body whose
/// boundary ends in `boundary_number`.
pub fn plan_response(mime_type: &str, len: u64, request: RangeRequest, boundary_number: u64) -> (response:
    Response)
    ensures
        response.deep_view() == planned(mime_type@, len, request.deep_view(), boundary_number),
        fits(response.deep_view().body, len as int),
        response.status == 416 <==> unanswerable(request.deep_view(), len),
{
    let response = match request {
        RangeRequest::Whole => whole(mime_type, len),
        RangeRequest::Invalid => unsatisfiable(len),
        RangeRequest::Ranges(ranges) => {
            let serve = satisfiable_ranges(&ranges, len);
            proof {
                served_ranges_lie_within(ranges@, len);
                lemma_multipart_fits(mime_type@, serve@, len, boundary_number);
            }
            if serve.len() == 0 {
                unsatisfiable(len)
            } else if serve.len() == 1 {
                single(mime_type, serve[0], len)
            } else {
                multipart(mime_type, &serve, len, boundary_number)
            }
        },
    };
    response
}

proof fn lemma_multipart_fits(mime: Seq<char>, ranges: Seq<(u64, u64)>, len: u64, n: u64)
    requires
        forall|i: int| 0 <= i < ranges.len() ==> (#[trigger] ranges[i]).0 <= ranges[i].1 < len,
    ensures
        fits(multipart_parts(mime, ranges, len, n), len as int),
        fits(multipart_response(mime, ranges, len, n).body, len as int),
    decreases ranges.len(),
{
    if ranges.len() > 0 {
        let init = ranges.drop_last();
        assert forall|i: int| 0 <= i < init.len() implies (#[trigger] init[i]).0 <= init[i].1
            < len by {
            assert(init[i] == ranges[i]);
        }
        lemma_multipart_fits(mime, init, len, n);
        assert(ranges[ranges.len() - 1] == ranges.last());
    }
}

/// Plans the response to a request for the file at `path`.
///
/// `allowed` is the host's answer on whether the path is in scope; where it
/// is not, the response is the refusal and `len` is not looked at. Otherwise
/// `range` is the request's `Range` header, if it has one, and `len` the
/// length of the file. The boundary of a multipart body is numbered at random.
pub fn handle_stream_request(path: &str, allowed: bool, range: Option<&str>, len: u64) -> (response:
    Response)
    ensures
        exists|n: u64|
            response.deep_view() == #[trigger] response_for(
                path@,
                allowed,
                range.deep_view(),
                len,
                n,
            ),
        allowed ==> fits(response.deep_view().body, len as int),
        response.status == 403 <==> !allowed,
        response.status == 416 <==> allowed && unanswerable(requested(range.deep_view(), len), len),
{
    if !allowed {
        let response = forbidden();
        assert(response.deep_view() == response_for(path@, allowed, range.deep_view(), len, 0));
        return response;
    }
    let mime = media_type_of(path);
    let request = parse_range_header(range, len);
    // Only a multipart body has a boundary, and it takes two ranges to make one.
    let n = match &request {
        RangeRequest::Ranges(ranges) => {
            if ranges.len() > 1 {
                random_number()
            } else {
                0
            }
        },
        _ => 0,
    };
    let response = plan_response(mime.as_str(), len, request, n);
    assert(response.deep_view() == response_for(path@, allowed, range.deep_view(), len, n));
    response
}

/// Puts a body together from its stretches and the bytes of the file.
/// `None` where a stretch reaches beyond the file.
pub fn assemble(body: &Vec<BodyPart>, file: &Vec<u8>) -> (bytes: Option<Vec<u8>>)
    ensures
        bytes is Some <==> fits(body.deep_view(), file@.len() as int),
        bytes matches Some(b) ==> b@ == body_bytes(body.deep_view(), file@),
{
    let ghost parts = body.deep_view();
    let mut out: Vec<u8> = Vec::new();
    let mut i: usize = 0;
    assert(out@ =~= body_bytes(parts.take(0), file@));
    while i < body.len()
        invariant
            parts == body.deep_view(),
            i <= body.len(),
            fits(parts.take(i as int), file@.len() as int),
            out@ == body_bytes(parts.take(i as int), file@),
        decreases body.len() - i,
    {
        proof {
            let next = parts.take(i + 1);
            assert(next.drop_last() == parts.take(i as int));
            assert(next.last() == parts[i as int]);
        }
        match &body[i] {
            BodyPart::Bytes(bytes) => {
                let mut j: usize = 0;
                let ghost start = out@;
                while j < bytes.len()
                    invariant
                        j <= bytes.len(),
                        out@ == start + bytes@.take(j as int),
                    decreases bytes.len() - j,
                {
                    out.push(bytes[j]);
                    assert(bytes@.take(j + 1) == bytes@.take(j as int).push(bytes@[j as int]));
                    j += 1;
                }
                assert(bytes@.take(bytes@.len() as int) == bytes@);
            },
            BodyPart::FileRange { start, end } => {
                let first = *start;
                let last = *end;
                if first > last || last >= file.len() as u64 {
                    assert(!fits(parts, file@.len() as int)) by {
                        assert(parts[i as int] == (BodyPartView::FileRange {
                            start: first,
                            end: last,
                        }));
                    }
                    return None;
                }
                assert(last < file@.len() <= usize::MAX);
                let stop: usize = last as usize + 1;
                let mut j: usize = first as usize;
                let ghost begun = out@;
                while j < stop
                    invariant
                        first <= j <= stop,
                        stop <= file@.len(),
                        out@ == begun + file@.subrange(first as int, j as int),
                    decreases stop - j,
                {
                    out.push(file[j]);
                    assert(file@.subrange(first as int, j + 1) == file@.subrange(
                        first as int,
                        j as int,
                    ).push(file@[j as int]));
                    j += 1;
                }
            },
        }
        proof {
            let next = parts.take(i + 1);
            assert forall|k: int| 0 <= k < next.len() implies ((
            #[trigger] next[k]) matches BodyPartView::FileRange { start, end } ==> start <= end
                < file@.len()) by {
                if k < i {
                    assert(next[k] == parts.take(i as int)[k]);
                }
            }
        }
        i += 1;
    }
    assert(parts.take(parts.len() as int) == parts);
    Some(out)
}

} // verus!
