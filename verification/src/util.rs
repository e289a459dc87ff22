use vstd::prelude::*;

use crate::clock::sendable_date;
use crate::bytes::{be24, bytes_eq, copy_range, decimal, decimal_bytes, extend_bytes, parse_usize, parse_usize_bytes};
use crate::read::FileCache;
use crate::request::{Method, Request, RequestModel};
use crate::response::{
    content_length_name, date_name, has_header, lookup, HeaderList, Response, ResponseBuilder,
    ResponseBuilderModel, StatusCode,
};
use crate::types::ContentType;

verus! {

/// Reads a 24-bit big-endian unsigned integer, as the frame length field of HTTP/2 is written.
pub fn u32_from_3_bytes(buf: [u8; 3]) -> (r: u32)
    ensures
        r == be24(buf@[0], buf@[1], buf@[2]),
        r < 0x100_0000,
{
    let b0: u8 = buf[0];
    let b1: u8 = buf[1];
    let b2: u8 = buf[2];
    let r: u32 = (b0 as u32) << 16u32 | (b1 as u32) << 8u32 | (b2 as u32);
    assert(r == (b0 as u32) * 65536 + (b1 as u32) * 256 + (b2 as u32)) by (bit_vector)
        requires
            r == (b0 as u32) << 16u32 | (b1 as u32) << 8u32 | (b2 as u32),
    ;
    r
}

/// The index of the last `.` of `s`, or -1 when there is none.
pub open spec fn last_dot(s: Seq<u8>) -> int
    decreases s.len(),
{
    if s.len() == 0 {
        -1
    } else if s.last() == '.' as u8 {
        s.len() - 1
    } else {
        last_dot(s.drop_last())
    }
}

/// The extension of a path: what follows its last `.`, or the whole path when it has none.
pub open spec fn extension(path: Seq<u8>) -> Seq<u8> {
    path.subrange(last_dot(path) + 1, path.len() as int)
}

/// The index of the first `-` of `s`, or its length when there is none.
pub open spec fn first_dash(s: Seq<u8>) -> int
    decreases s.len(),
{
    if s.len() == 0 {
        0
    } else if s[0] == '-' as u8 {
        0
    } else {
        1 + first_dash(s.drop_first())
    }
}

/// The first `-` lies within the sequence, or just past its end.
pub proof fn lemma_first_dash_bounds(s: Seq<u8>)
    ensures
        0 <= first_dash(s) <= s.len(),
        first_dash(s) < s.len() ==> s[first_dash(s)] == '-' as u8,
    decreases s.len(),
{
    if s.len() > 0 && s[0] != '-' as u8 {
        lemma_first_dash_bounds(s.drop_first());
    }
}

/// The name of the request header that asks for part of a file.
pub open spec fn range_name() -> Seq<u8> {
    seq!['r' as u8, 'a' as u8, 'n' as u8, 'g' as u8, 'e' as u8]
}

/// The unit prefix of a range header value.
pub open spec fn bytes_unit() -> Seq<u8> {
    seq!['b' as u8, 'y' as u8, 't' as u8, 'e' as u8, 's' as u8, '=' as u8]
}

/// The range that a `range` header value asks for: `bytes=<start>-<end>`, where the end may be
/// left out (or the `-` too); `None` when the value is not of this form. Only the first two
/// `-`-separated parts are read.
pub open spec fn parse_range(v: Seq<u8>) -> Option<(usize, Option<usize>)> {
    if !(v.len() >= 6 && v.subrange(0, 6) == bytes_unit()) {
        None
    } else {
        let r = v.subrange(6, v.len() as int);
        let d = first_dash(r);
        match parse_usize(r.subrange(0, d)) {
            None => None,
            Some(start) => if d >= r.len() {
                Some((start, None))
            } else {
                let rest = r.subrange(d + 1, r.len() as int);
                let e = rest.subrange(0, first_dash(rest));
                if e.len() == 0 {
                    Some((start, None))
                } else {
                    match parse_usize(e) {
                        None => None,
                        Some(end) => Some((start, Some(end))),
                    }
                }
            },
        }
    }
}

pub open spec fn content_type_name() -> Seq<u8> {
    seq![
        'c' as u8, 'o' as u8, 'n' as u8, 't' as u8, 'e' as u8, 'n' as u8, 't' as u8, '-' as u8,
        't' as u8, 'y' as u8, 'p' as u8, 'e' as u8,
    ]
}

pub open spec fn content_length_lower() -> Seq<u8> {
    seq![
        'c' as u8, 'o' as u8, 'n' as u8, 't' as u8, 'e' as u8, 'n' as u8, 't' as u8, '-' as u8,
        'l' as u8, 'e' as u8, 'n' as u8, 'g' as u8, 't' as u8, 'h' as u8,
    ]
}

pub open spec fn content_range_name() -> Seq<u8> {
    seq![
        'c' as u8, 'o' as u8, 'n' as u8, 't' as u8, 'e' as u8, 'n' as u8, 't' as u8, '-' as u8,
        'r' as u8, 'a' as u8, 'n' as u8, 'g' as u8, 'e' as u8,
    ]
}

/// The value of a `content-range` header: `bytes <start>-<end>/<len>`, where a range without
/// an end ends at `len - 1` (computed with wrap-around, so `usize::MAX` when `len` is 0).
pub open spec fn content_range_value(start: usize, end: Option<usize>, len: nat) -> Seq<u8> {
    let last: nat = match end {
        Some(e) => e as nat,
        None => if len == 0 {
            usize::MAX as nat
        } else {
            (len - 1) as nat
        },
    };
    seq!['b' as u8, 'y' as u8, 't' as u8, 'e' as u8, 's' as u8, ' ' as u8] + decimal(start as nat)
        + seq!['-' as u8] + decimal(last) + seq!['/' as u8] + decimal(len)
}

/// The builder of a successful answer: status 200, or 206 with a `content-range` header when
/// a range was asked for; a `content-type` and a `content-length` header; the body if any.
pub open spec fn file_builder(
    stream_id: u32,
    ct: ContentType,
    length: nat,
    body: Option<Seq<u8>>,
    range: Option<Seq<u8>>,
) -> ResponseBuilderModel {
    let base: HeaderList = seq![
        (content_type_name(), ct.spec_media_type()),
        (content_length_lower(), decimal(length)),
    ];
    ResponseBuilderModel {
        status_code: if range is Some {
            StatusCode::PartialContent
        } else {
            StatusCode::OK
        },
        headers: match range {
            Some(cr) => base.push((content_range_name(), cr)),
            None => base,
        },
        body,
        stream_id,
    }
}

/// What a GET request is answered with, but for the date: `Err` when its range header is not
/// of the form that `parse_range` reads. A path with an unknown extension is a bad request; a
/// path that is not cached is not found; a range that starts at or after the end of the file,
/// ends after it, or ends before it starts cannot be satisfied.
pub open spec fn spec_handle_get(req: RequestModel, cache: HeaderList) -> Result<
    ResponseBuilderModel,
    (),
> {
    let ct = ContentType::spec_from_extension(extension(req.path));
    if ct == ContentType::Unknown {
        Ok(ResponseBuilder::empty_with(StatusCode::BadRequest, req.stream_id))
    } else if lookup(req.headers, range_name()) matches Some(v) && parse_range(v) is None {
        Err(())
    } else {
        let slice = match lookup(req.headers, range_name()) {
            Some(v) => parse_range(v),
            None => None,
        };
        match lookup(cache, req.path) {
            None => Ok(ResponseBuilder::empty_with(StatusCode::NotFound, req.stream_id)),
            Some(bytes) => match slice {
                Some((start, end)) => {
                    let stop: int = match end {
                        Some(e) => e as int,
                        None => bytes.len() as int,
                    };
                    if start >= bytes.len() || stop > bytes.len() || start > stop {
                        Ok(ResponseBuilder::empty_with(StatusCode::RangeNotSatisfiable, req.stream_id))
                    } else {
                        let body = bytes.subrange(start as int, stop);
                        Ok(
                            file_builder(
                                req.stream_id,
                                ct,
                                body.len(),
                                Some(body),
                                Some(content_range_value(start, end, body.len())),
                            ),
                        )
                    }
                },
                None => Ok(file_builder(req.stream_id, ct, bytes.len(), Some(bytes), None)),
            },
        }
    }
}

/// What a HEAD request is answered with, but for the date: as for GET, with no body, a
/// `content-length` of the whole file and no check of the range against the file.
pub open spec fn spec_handle_head(req: RequestModel, cache: HeaderList) -> Result<
    ResponseBuilderModel,
    (),
> {
    let ct = ContentType::spec_from_extension(extension(req.path));
    if ct == ContentType::Unknown {
        Ok(ResponseBuilder::empty_with(StatusCode::BadRequest, req.stream_id))
    } else if lookup(req.headers, range_name()) matches Some(v) && parse_range(v) is None {
        Err(())
    } else {
        let slice = match lookup(req.headers, range_name()) {
            Some(v) => parse_range(v),
            None => None,
        };
        match lookup(cache, req.path) {
            None => Ok(ResponseBuilder::empty_with(StatusCode::NotFound, req.stream_id)),
            Some(bytes) => match slice {
                Some((start, end)) => Ok(
                    file_builder(
                        req.stream_id,
                        ct,
                        bytes.len(),
                        None,
                        Some(content_range_value(start, end, bytes.len())),
                    ),
                ),
                None => Ok(file_builder(req.stream_id, ct, bytes.len(), None, None)),
            },
        }
    }
}

/// What a request is answered with, but for the date: GET and HEAD are served, other methods
/// are not allowed.
pub open spec fn spec_handle_request(req: RequestModel, cache: HeaderList) -> Result<
    ResponseBuilderModel,
    (),
> {
    match req.method {
        Method::GET => spec_handle_get(req, cache),
        Method::HEAD => spec_handle_head(req, cache),
        _ => Ok(ResponseBuilder::empty_with(StatusCode::MethodNotAllowed, req.stream_id)),
    }
}

/// The error text of a malformed range header.
pub open spec fn invalid_range_text() -> Seq<char> {
    "Invalid range header"@
}

/// Answers a request from the cache. The response is the one that `spec_handle_request` gives,
/// dated when it is built; a malformed range header gives "Invalid range header".
pub fn handle_request(request: &Request, cache: &FileCache) -> (r: Result<Response, String>)
    ensures
        match r {
            Ok(res) => spec_handle_request(request@, cache@) matches Ok(m) && exists|date: Seq<u8>|
                res@ == m.build_with(date) && sendable_date(date),
            Err(e) => spec_handle_request(request@, cache@) is Err && e@ == invalid_range_text(),
        },
{
    match request.method {
        Method::GET => handle_get(request, cache),
        Method::HEAD => handle_head(request, cache),
        _ => Ok(Response::method_not_allowed(request.stream_id)),
    }
}

/// The extension of a path (see `extension`).
fn path_extension(path: &[u8]) -> (r: Vec<u8>)
    ensures
        r@ == extension(path@),
{
    let mut i: usize = path.len();
    assert(path@.subrange(0, i as int) =~= path@);
    while i > 0
        invariant
            i <= path@.len(),
            last_dot(path@) == last_dot(path@.subrange(0, i as int)),
        decreases i,
    {
        if path[i - 1] == '.' as u8 {
            assert(last_dot(path@.subrange(0, i as int)) == i - 1);
            return copy_range(path, i, path.len());
        }
        assert(path@.subrange(0, i as int).drop_last() =~= path@.subrange(0, i - 1));
        i = i - 1;
    }
    assert(last_dot(path@.subrange(0, 0)) == -1);
    copy_range(path, 0, path.len())
}

/// The index of the first `-` of `s[from..]`, counted from `from`, or `s.len()`.
fn find_dash(s: &[u8], from: usize) -> (r: usize)
    requires
        from <= s@.len(),
    ensures
        r == from + first_dash(s@.subrange(from as int, s@.len() as int)),
        from <= r <= s@.len(),
{
    proof {
        lemma_first_dash_bounds(s@.subrange(from as int, s@.len() as int));
    }
    let mut i: usize = from;
    while i < s.len()
        invariant
            from <= i <= s@.len(),
            first_dash(s@.subrange(from as int, s@.len() as int)) == (i - from) + first_dash(
                s@.subrange(i as int, s@.len() as int),
            ),
        decreases s@.len() - i,
    {
        if s[i] == '-' as u8 {
            return i;
        }
        assert(s@.subrange(i as int, s@.len() as int).drop_first() =~= s@.subrange(
            i + 1,
            s@.len() as int,
        ));
        i = i + 1;
    }
    i
}

/// Reads a range header value as `parse_range` says.
fn range_of(v: &[u8]) -> (r: Option<(usize, Option<usize>)>)
    ensures
        r == parse_range(v@),
{
    let unit: Vec<u8> = vec!['b' as u8, 'y' as u8, 't' as u8, 'e' as u8, 's' as u8, '=' as u8];
    assert(unit@ =~= bytes_unit());
    if v.len() < 6 {
        return None;
    }
    let head = copy_range(v, 0, 6);
    if !bytes_eq(head.as_slice(), unit.as_slice()) {
        return None;
    }
    let r = copy_range(v, 6, v.len());
    let ghost rs = v@.subrange(6, v@.len() as int);
    assert(r@ == rs);
    let d: usize = find_dash(r.as_slice(), 0);
    assert(r@.subrange(0, r@.len() as int) =~= r@);
    let first = copy_range(r.as_slice(), 0, d);
    let start: usize = match parse_usize_bytes(first.as_slice()) {
        None => return None,
        Some(s) => s,
    };
    if d >= r.len() {
        return Some((start, None));
    }
    let d2: usize = find_dash(r.as_slice(), d + 1);
    let ghost rest = rs.subrange(d + 1, rs.len() as int);
    proof {
        lemma_first_dash_bounds(rest);
        assert(r@.subrange(d + 1, r@.len() as int) == rest);
    }
    let e = copy_range(r.as_slice(), d + 1, d2);
    assert(e@ =~= rest.subrange(0, first_dash(rest)));
    if e.len() == 0 {
        return Some((start, None));
    }
    match parse_usize_bytes(e.as_slice()) {
        None => None,
        Some(end) => Some((start, Some(end))),
    }
}

/// The range that a request asks for: `Err` when its range header is malformed.
fn request_range(request: &Request) -> (r: Result<Option<(usize, Option<usize>)>, String>)
    ensures
        match r {
            Ok(s) => !(lookup(request@.headers, range_name()) matches Some(v) && parse_range(v) is None)
                && s == match lookup(request@.headers, range_name()) {
                Some(v) => parse_range(v),
                None => None,
            },
            Err(e) => lookup(request@.headers, range_name()) matches Some(v) && parse_range(v) is None
                && e@ == invalid_range_text(),
        },
{
    let name: Vec<u8> = vec!['r' as u8, 'a' as u8, 'n' as u8, 'g' as u8, 'e' as u8];
    assert(name@ =~= range_name());
    match request.get_header(name.as_slice()) {
        Some(h) => match range_of(h.value.as_slice()) {
            Some(s) => Ok(Some(s)),
            None => Err("Invalid range header".to_owned()),
        },
        None => Ok(None),
    }
}

/// The text of a `content-range` header.
fn content_range(start: usize, end: Option<usize>, len: usize) -> (r: Vec<u8>)
    ensures
        r@ == content_range_value(start, end, len as nat),
{
    let mut r: Vec<u8> = vec!['b' as u8, 'y' as u8, 't' as u8, 'e' as u8, 's' as u8, ' ' as u8];
    let s = decimal_bytes(start as u64);
    extend_bytes(&mut r, s.as_slice());
    r.push('-' as u8);
    let last: usize = match end {
        Some(e) => e,
        None => len.wrapping_sub(1),
    };
    let l = decimal_bytes(last as u64);
    extend_bytes(&mut r, l.as_slice());
    r.push('/' as u8);
    let n = decimal_bytes(len as u64);
    extend_bytes(&mut r, n.as_slice());
    assert(r@ =~= content_range_value(start, end, len as nat));
    r
}

/// The bytes of an optional byte vector.
pub open spec fn opt_view(o: Option<Vec<u8>>) -> Option<Seq<u8>> {
    match o {
        Some(b) => Some(b@),
        None => None,
    }
}

/// Builds the answer with a file's contents (see `file_builder`).
fn file_response(
    stream_id: u32,
    ct: ContentType,
    length: usize,
    body: Option<Vec<u8>>,
    range: Option<Vec<u8>>,
) -> (r: Response)
    ensures
        exists|date: Seq<u8>|
            r@ == #[trigger] file_builder(
                stream_id,
                ct,
                length as nat,
                opt_view(body),
                opt_view(range),
            ).build_with(date) && sendable_date(date),
{
    let ct_name: Vec<u8> = vec![
        'c' as u8, 'o' as u8, 'n' as u8, 't' as u8, 'e' as u8, 'n' as u8, 't' as u8, '-' as u8,
        't' as u8, 'y' as u8, 'p' as u8, 'e' as u8,
    ];
    let cl_name: Vec<u8> = vec![
        'c' as u8, 'o' as u8, 'n' as u8, 't' as u8, 'e' as u8, 'n' as u8, 't' as u8, '-' as u8,
        'l' as u8, 'e' as u8, 'n' as u8, 'g' as u8, 't' as u8, 'h' as u8,
    ];
    assert(ct_name@ =~= content_type_name());
    assert(cl_name@ =~= content_length_lower());
    let mut builder = ResponseBuilder::new().stream_id(stream_id).header(
        ct_name,
        ct.media_type(),
    ).header(cl_name, decimal_bytes(length as u64));
    let ghost base: HeaderList = seq![
        (content_type_name(), ct.spec_media_type()),
        (content_length_lower(), decimal(length as nat)),
    ];
    assert(builder@.headers =~= base);
    if let Some(b) = body {
        builder = builder.body(b);
    }
    match range {
        Some(cr) => {
            let cr_name: Vec<u8> = vec![
                'c' as u8, 'o' as u8, 'n' as u8, 't' as u8, 'e' as u8, 'n' as u8, 't' as u8,
                '-' as u8, 'r' as u8, 'a' as u8, 'n' as u8, 'g' as u8, 'e' as u8,
            ];
            assert(cr_name@ =~= content_range_name());
            let ghost crv = cr@;
            builder = builder.status_code(StatusCode::PartialContent).header(cr_name, cr);
            assert(builder@.headers =~= base.push((content_range_name(), crv)));
        },
        None => {
            builder = builder.status_code(StatusCode::OK);
        },
    }
    builder.build()
}

/// A header appended under another name does not change what a lookup finds.
proof fn lemma_lookup_push_other(hs: HeaderList, h: (Seq<u8>, Seq<u8>), name: Seq<u8>)
    requires
        h.0 != name,
    ensures
        lookup(hs.push(h), name) == lookup(hs, name),
    decreases hs.len(),
{
    let p = hs.push(h);
    if hs.len() > 0 {
        assert(p[0] == hs[0]);
        assert(p.drop_first() =~= hs.drop_first().push(h));
        lemma_lookup_push_other(hs.drop_first(), h, name);
    } else {
        assert(p[0] == h);
        assert(p.drop_first() =~= Seq::<(Seq<u8>, Seq<u8>)>::empty());
        assert(lookup(p.drop_first(), name) is None);
    }
}

/// Building a response adds at most a `Date` and a `Content-Length` header, so the
/// `content-length` that a builder holds is the one that the response holds.
proof fn lemma_built_content_length(b: ResponseBuilderModel, date: Seq<u8>)
    ensures
        lookup(b.build_with(date).headers, content_length_lower()) == lookup(
            b.headers,
            content_length_lower(),
        ),
{
    let body = match b.body {
        Some(x) => x,
        None => Seq::empty(),
    };
    assert(date_name() != content_length_lower()) by {
        assert(date_name().len() != content_length_lower().len());
    }
    assert(content_length_name() != content_length_lower()) by {
        assert(content_length_name()[0] != content_length_lower()[0]);
    }
    let h1 = if has_header(b.headers, date_name()) {
        b.headers
    } else {
        lemma_lookup_push_other(b.headers, (date_name(), date), content_length_lower());
        b.headers.push((date_name(), date))
    };
    if !has_header(h1, content_length_name()) {
        lemma_lookup_push_other(h1, (content_length_name(), decimal(body.len())), content_length_lower());
    }
}

/// A file answer's headers say how long its body is: the `content-length` that a file answer
/// collects is the decimal of `length`.
proof fn lemma_file_builder_length(
    stream_id: u32,
    ct: ContentType,
    length: nat,
    body: Option<Seq<u8>>,
    range: Option<Seq<u8>>,
)
    ensures
        lookup(file_builder(stream_id, ct, length, body, range).headers, content_length_lower())
            == Some(decimal(length)),
{
    let base: HeaderList = seq![
        (content_type_name(), ct.spec_media_type()),
        (content_length_lower(), decimal(length)),
    ];
    assert(content_type_name() != content_length_lower()) by {
        assert(content_type_name().len() != content_length_lower().len());
    }
    assert(base.drop_first().drop_first() =~= Seq::<(Seq<u8>, Seq<u8>)>::empty());
    assert(base.drop_first()[0] == (content_length_lower(), decimal(length)));
    assert(lookup(base.drop_first(), content_length_lower()) == Some(decimal(length)));
    assert(lookup(base, content_length_lower()) == Some(decimal(length)));
    if let Some(cr) = range {
        assert(content_range_name() != content_length_lower()) by {
            assert(content_range_name()[8] != content_length_lower()[8]);
        }
        lemma_lookup_push_other(base, (content_range_name(), cr), content_length_lower());
    }
}

/// Every answer to a GET request that carries a body says how long that body is: whatever the
/// date, the response's `content-length` is the decimal of the length of the body it is sent
/// with. A range request answered with part of the file (206) is sent the bytes of the file
/// from the start of the range up to its end (the end of the file when the range leaves it
/// open), so its `content-length` is the end less the start, not the length of the file.
pub proof fn lemma_get_content_length_is_body_length(
    req: RequestModel,
    cache: HeaderList,
    date: Seq<u8>,
)
    requires
        req.method == Method::GET,
    ensures
        match spec_handle_request(req, cache) {
            Ok(m) => m.body is Some ==> lookup(
                m.build_with(date).headers,
                content_length_lower(),
            ) == Some(decimal(m.build_with(date).body.len())),
            Err(_) => true,
        },
        ({
            &&& lookup(req.headers, range_name()) matches Some(v)
            &&& parse_range(v) matches Some((start, end))
            &&& lookup(cache, req.path) matches Some(bytes)
            &&& spec_handle_request(req, cache) matches Ok(m)
            &&& m.status_code == StatusCode::PartialContent
        }) ==> {
            let (start, end) = parse_range(lookup(req.headers, range_name())->0)->0;
            let bytes = lookup(cache, req.path)->0;
            let stop: int = match end {
                Some(e) => e as int,
                None => bytes.len() as int,
            };
            let res = spec_handle_request(req, cache)->Ok_0.build_with(date);
            &&& res.body == bytes.subrange(start as int, stop)
            &&& lookup(res.headers, content_length_lower()) == Some(decimal((stop - start) as nat))
        },
{
    if let Ok(m) = spec_handle_request(req, cache) {
        lemma_built_content_length(m, date);
        let ct = ContentType::spec_from_extension(extension(req.path));
        let slice = match lookup(req.headers, range_name()) {
            Some(v) => parse_range(v),
            None => None,
        };
        if ct != ContentType::Unknown {
            match lookup(cache, req.path) {
                None => {},
                Some(bytes) => match slice {
                    Some((start, end)) => {
                        let stop: int = match end {
                            Some(e) => e as int,
                            None => bytes.len() as int,
                        };
                        if !(start >= bytes.len() || stop > bytes.len() || start > stop) {
                            let body = bytes.subrange(start as int, stop);
                            lemma_file_builder_length(
                                req.stream_id,
                                ct,
                                body.len(),
                                Some(body),
                                Some(content_range_value(start, end, body.len())),
                            );
                        }
                    },
                    None => {
                        lemma_file_builder_length(req.stream_id, ct, bytes.len(), Some(bytes), None);
                    },
                },
            }
        }
    }
}

/// How a GET request is answered, by case: a path whose extension names no known content type
/// is a bad request (400); otherwise a malformed range header is an error; a path that is not
/// cached is not found (404); without a range the whole file is sent (200) with its content
/// type; a range that starts at or after the end of the file, or ends after it, cannot be
/// satisfied (416). None of the answers without a file carries a body or a header.
pub proof fn lemma_get_answers(req: RequestModel, cache: HeaderList)
    requires
        req.method == Method::GET,
    ensures
        ({
            let ct = ContentType::spec_from_extension(extension(req.path));
            let range = lookup(req.headers, range_name());
            let r = spec_handle_request(req, cache);
            &&& ct == ContentType::Unknown ==> r == Ok::<ResponseBuilderModel, ()>(
                ResponseBuilderModel {
                    status_code: StatusCode::BadRequest,
                    headers: Seq::empty(),
                    body: None,
                    stream_id: req.stream_id,
                },
            )
            &&& (range matches Some(v) && parse_range(v) is None && ct != ContentType::Unknown)
                ==> r is Err
            &&& (lookup(cache, req.path) is None && ct != ContentType::Unknown && match range {
                Some(v) => parse_range(v) is Some,
                None => true,
            }) ==> r == Ok::<ResponseBuilderModel, ()>(
                ResponseBuilderModel {
                    status_code: StatusCode::NotFound,
                    headers: Seq::empty(),
                    body: None,
                    stream_id: req.stream_id,
                },
            )
            &&& match lookup(cache, req.path) {
                Some(bytes) => (range is None && ct != ContentType::Unknown) ==> (r matches Ok(m)
                    && m.status_code == StatusCode::OK && m.body == Some(bytes) && m.stream_id
                    == req.stream_id && lookup(m.headers, content_type_name()) == Some(
                    ct.spec_media_type(),
                )),
                None => true,
            }
            &&& match (range, lookup(cache, req.path)) {
                (Some(v), Some(bytes)) => match parse_range(v) {
                    Some((start, end)) => (ct != ContentType::Unknown && (start >= bytes.len()
                        || (end matches Some(e) && e > bytes.len()))) ==> r == Ok::<
                        ResponseBuilderModel,
                        (),
                    >(
                        ResponseBuilderModel {
                            status_code: StatusCode::RangeNotSatisfiable,
                            headers: Seq::empty(),
                            body: None,
                            stream_id: req.stream_id,
                        },
                    ),
                    None => true,
                },
                _ => true,
            }
        }),
{
    let ct = ContentType::spec_from_extension(extension(req.path));
    if ct != ContentType::Unknown {
        if let Some(bytes) = lookup(cache, req.path) {
            lemma_file_builder_length(req.stream_id, ct, bytes.len(), Some(bytes), None);
            let base: HeaderList = seq![
                (content_type_name(), ct.spec_media_type()),
                (content_length_lower(), decimal(bytes.len())),
            ];
            assert(base[0] == (content_type_name(), ct.spec_media_type()));
        }
    }
}

/// Without a `range` header, a HEAD request is answered as a GET request is, but without the
/// body: both succeed, with the same status, stream and headers collected, and, whatever the
/// date, the responses carry the same `content-length`, the HEAD response an empty body.
pub proof fn lemma_head_is_get_without_body(req: RequestModel, cache: HeaderList, date: Seq<u8>)
    requires
        lookup(req.headers, range_name()) is None,
    ensures
        spec_handle_get(req, cache) is Ok,
        spec_handle_head(req, cache) is Ok,
        spec_handle_head(req, cache)->Ok_0 == (ResponseBuilderModel {
            body: None,
            ..spec_handle_get(req, cache)->Ok_0
        }),
        ({
            let g = spec_handle_get(req, cache)->Ok_0.build_with(date);
            let h = spec_handle_head(req, cache)->Ok_0.build_with(date);
            &&& h.status_code == g.status_code
            &&& h.stream_id == g.stream_id
            &&& h.body.len() == 0
            &&& lookup(h.headers, content_length_lower()) == lookup(g.headers, content_length_lower())
        }),
{
    lemma_built_content_length(spec_handle_get(req, cache)->Ok_0, date);
    lemma_built_content_length(spec_handle_head(req, cache)->Ok_0, date);
}

/// Answers a GET request (see `spec_handle_get`).
fn handle_get(request: &Request, cache: &FileCache) -> (r: Result<Response, String>)
    ensures
        match r {
            Ok(res) => spec_handle_get(request@, cache@) matches Ok(m) && exists|date: Seq<u8>|
                res@ == m.build_with(date) && sendable_date(date),
            Err(e) => spec_handle_get(request@, cache@) is Err && e@ == invalid_range_text(),
        },
{
    let file_extension = path_extension(request.path.as_slice());
    let content_type = ContentType::from_extension(file_extension.as_slice());
    if content_type == ContentType::Unknown {
        return Ok(Response::bad_request(request.stream_id));
    }
    let slice = request_range(request)?;
    match cache.get(request.path.as_slice()) {
        Some(bytes) => match slice {
            Some((start, end)) => {
                if start >= bytes.len() {
                    return Ok(Response::range_not_satisfiable(request.stream_id));
                }
                let stop: usize = match end {
                    Some(e) => e,
                    None => bytes.len(),
                };
                if stop > bytes.len() || start > stop {
                    return Ok(Response::range_not_satisfiable(request.stream_id));
                }
                let body = copy_range(bytes.as_slice(), start, stop);
                let len: usize = body.len();
                let cr = content_range(start, end, len);
                Ok(file_response(request.stream_id, content_type, len, Some(body), Some(cr)))
            },
            None => {
                let body = copy_range(bytes.as_slice(), 0, bytes.len());
                assert(bytes@.subrange(0, bytes@.len() as int) =~= bytes@);
                let len: usize = body.len();
                Ok(file_response(request.stream_id, content_type, len, Some(body), None))
            },
        },
        None => Ok(Response::not_found(request.stream_id)),
    }
}

/// Answers a HEAD request (see `spec_handle_head`).
fn handle_head(request: &Request, cache: &FileCache) -> (r: Result<Response, String>)
    ensures
        match r {
            Ok(res) => spec_handle_head(request@, cache@) matches Ok(m) && exists|date: Seq<u8>|
                res@ == m.build_with(date) && sendable_date(date),
            Err(e) => spec_handle_head(request@, cache@) is Err && e@ == invalid_range_text(),
        },
{
    let file_extension = path_extension(request.path.as_slice());
    let content_type = ContentType::from_extension(file_extension.as_slice());
    if content_type == ContentType::Unknown {
        return Ok(Response::bad_request(request.stream_id));
    }
    let slice = request_range(request)?;
    match cache.get(request.path.as_slice()) {
        Some(bytes) => {
            let len: usize = bytes.len();
            match slice {
                Some((start, end)) => {
                    let cr = content_range(start, end, len);
                    Ok(file_response(request.stream_id, content_type, len, None, Some(cr)))
                },
                None => Ok(file_response(request.stream_id, content_type, len, None, None)),
            }
        },
        None => Ok(Response::not_found(request.stream_id)),
    }
}

} // verus!
