use vstd::prelude::*;

use crate::types::{headers_view, Header};
use crate::bytes::{bytes_eq, decimal, decimal_bytes, extend_bytes};
use crate::clock::{now_date, sendable_date};

verus! {

/// The statuses that the server answers with.
#[derive(Clone, Copy, Debug, PartialEq, Eq, Structural)]
pub enum StatusCode {
    OK,
    PartialContent,
    NotFound,
    BadRequest,
    MethodNotAllowed,
    RangeNotSatisfiable,
    InteralServerError,
}

impl StatusCode {
    pub open spec fn spec_code(self) -> u32 {
        match self {
            StatusCode::OK => 200,
            StatusCode::PartialContent => 206,
            StatusCode::NotFound => 404,
            StatusCode::BadRequest => 400,
            StatusCode::MethodNotAllowed => 405,
            StatusCode::RangeNotSatisfiable => 416,
            StatusCode::InteralServerError => 500,
        }
    }

    /// The numeric code of the status.
    pub fn to_code(&self) -> (r: u32)
        ensures
            r == self.spec_code(),
    {
        match self {
            StatusCode::OK => 200,
            StatusCode::PartialContent => 206,
            StatusCode::NotFound => 404,
            StatusCode::BadRequest => 400,
            StatusCode::MethodNotAllowed => 405,
            StatusCode::RangeNotSatisfiable => 416,
            StatusCode::InteralServerError => 500,
        }
    }

    /// The reason phrase of the status.
    pub open spec fn spec_reason(self) -> Seq<u8> {
        match self {
            StatusCode::OK => seq!['O' as u8, 'K' as u8],
            StatusCode::PartialContent => seq![
                'P' as u8, 'a' as u8, 'r' as u8, 't' as u8, 'i' as u8, 'a' as u8, 'l' as u8,
                ' ' as u8, 'C' as u8, 'o' as u8, 'n' as u8, 't' as u8, 'e' as u8, 'n' as u8,
                't' as u8,
            ],
            StatusCode::NotFound => seq![
                'N' as u8, 'o' as u8, 't' as u8, ' ' as u8, 'F' as u8, 'o' as u8, 'u' as u8,
                'n' as u8, 'd' as u8,
            ],
            StatusCode::BadRequest => seq![
                'B' as u8, 'a' as u8, 'd' as u8, ' ' as u8, 'R' as u8, 'e' as u8, 'q' as u8,
                'u' as u8, 'e' as u8, 's' as u8, 't' as u8,
            ],
            StatusCode::MethodNotAllowed => seq![
                'M' as u8, 'e' as u8, 't' as u8, 'h' as u8, 'o' as u8, 'd' as u8, ' ' as u8,
                'N' as u8, 'o' as u8, 't' as u8, ' ' as u8, 'A' as u8, 'l' as u8, 'l' as u8,
                'o' as u8, 'w' as u8, 'e' as u8, 'd' as u8,
            ],
            StatusCode::RangeNotSatisfiable => seq![
                'R' as u8, 'a' as u8, 'n' as u8, 'g' as u8, 'e' as u8, ' ' as u8, 'N' as u8,
                'o' as u8, 't' as u8, ' ' as u8, 'S' as u8, 'a' as u8, 't' as u8, 'i' as u8,
                's' as u8, 'f' as u8, 'i' as u8, 'a' as u8, 'b' as u8, 'l' as u8, 'e' as u8,
            ],
            StatusCode::InteralServerError => seq![
                'I' as u8, 'n' as u8, 't' as u8, 'e' as u8, 'r' as u8, 'n' as u8, 'a' as u8,
                'l' as u8, ' ' as u8, 'S' as u8, 'e' as u8, 'r' as u8, 'v' as u8, 'e' as u8,
                'r' as u8, ' ' as u8, 'E' as u8, 'r' as u8, 'r' as u8, 'o' as u8, 'r' as u8,
            ],
        }
    }

    /// The status as a status line writes it: the code, a space and the reason phrase, as in
    /// `404 Not Found`.
    pub open spec fn spec_status_text(self) -> Seq<u8> {
        decimal(self.spec_code() as nat) + seq![' ' as u8] + self.spec_reason()
    }

    /// The status as a status line writes it.
    pub fn status_text(&self) -> (r: Vec<u8>)
        ensures
            r@ == self.spec_status_text(),
    {
        let mut r = decimal_bytes(self.to_code() as u64);
        r.push(' ' as u8);
        let reason: Vec<u8> = match self {
            StatusCode::OK => vec!['O' as u8, 'K' as u8],
            StatusCode::PartialContent => vec![
                'P' as u8, 'a' as u8, 'r' as u8, 't' as u8, 'i' as u8, 'a' as u8, 'l' as u8,
                ' ' as u8, 'C' as u8, 'o' as u8, 'n' as u8, 't' as u8, 'e' as u8, 'n' as u8,
                't' as u8,
            ],
            StatusCode::NotFound => vec![
                'N' as u8, 'o' as u8, 't' as u8, ' ' as u8, 'F' as u8, 'o' as u8, 'u' as u8,
                'n' as u8, 'd' as u8,
            ],
            StatusCode::BadRequest => vec![
                'B' as u8, 'a' as u8, 'd' as u8, ' ' as u8, 'R' as u8, 'e' as u8, 'q' as u8,
                'u' as u8, 'e' as u8, 's' as u8, 't' as u8,
            ],
            StatusCode::MethodNotAllowed => vec![
                'M' as u8, 'e' as u8, 't' as u8, 'h' as u8, 'o' as u8, 'd' as u8, ' ' as u8,
                'N' as u8, 'o' as u8, 't' as u8, ' ' as u8, 'A' as u8, 'l' as u8, 'l' as u8,
                'o' as u8, 'w' as u8, 'e' as u8, 'd' as u8,
            ],
            StatusCode::RangeNotSatisfiable => vec![
                'R' as u8, 'a' as u8, 'n' as u8, 'g' as u8, 'e' as u8, ' ' as u8, 'N' as u8,
                'o' as u8, 't' as u8, ' ' as u8, 'S' as u8, 'a' as u8, 't' as u8, 'i' as u8,
                's' as u8, 'f' as u8, 'i' as u8, 'a' as u8, 'b' as u8, 'l' as u8, 'e' as u8,
            ],
            StatusCode::InteralServerError => vec![
                'I' as u8, 'n' as u8, 't' as u8, 'e' as u8, 'r' as u8, 'n' as u8, 'a' as u8,
                'l' as u8, ' ' as u8, 'S' as u8, 'e' as u8, 'r' as u8, 'v' as u8, 'e' as u8,
                'r' as u8, ' ' as u8, 'E' as u8, 'r' as u8, 'r' as u8, 'o' as u8, 'r' as u8,
            ],
        };
        assert(reason@ =~= self.spec_reason());
        extend_bytes(&mut r, reason.as_slice());
        r
    }
}

/// Header lists as values: a list of (name, value) pairs.
pub type HeaderList = Seq<(Seq<u8>, Seq<u8>)>;

/// No two headers of the list have the same name: the list behaves as a map from names.
pub open spec fn names_distinct(hs: HeaderList) -> bool {
    forall|i: int, j: int| 0 <= i < j < hs.len() ==> #[trigger] hs[i].0 != #[trigger] hs[j].0
}

/// Whether the list has a header with this name.
pub open spec fn has_header(hs: HeaderList, name: Seq<u8>) -> bool {
    exists|i: int| 0 <= i < hs.len() && #[trigger] hs[i].0 == name
}

/// The value of the first header with this name, if any.
pub open spec fn lookup(hs: HeaderList, name: Seq<u8>) -> Option<Seq<u8>>
    decreases hs.len(),
{
    if hs.len() == 0 {
        None
    } else if hs[0].0 == name {
        Some(hs[0].1)
    } else {
        lookup(hs.drop_first(), name)
    }
}

/// The list with a header set: the header with this name gets the new value in place, or, when
/// there is none, the header is added at the end.
pub open spec fn set_header_spec(hs: HeaderList, name: Seq<u8>, value: Seq<u8>) -> HeaderList {
    if has_header(hs, name) {
        hs.update(choose|i: int| 0 <= i < hs.len() && #[trigger] hs[i].0 == name, (name, value))
    } else {
        hs.push((name, value))
    }
}

/// The bytes that a header list is written as in an HTTP/1.1 message: `name: value\r\n` each.
pub open spec fn headers_bytes(hs: HeaderList) -> Seq<u8>
    decreases hs.len(),
{
    if hs.len() == 0 {
        Seq::empty()
    } else {
        headers_bytes(hs.drop_last()) + hs.last().0 + seq![':' as u8, ' ' as u8] + hs.last().1
            + seq!['\r' as u8, '\n' as u8]
    }
}

/// The index of the first header with this name.
pub fn find_header(hs: &Vec<Header>, name: &[u8]) -> (r: Option<usize>)
    ensures
        match r {
            Some(i) => i < hs@.len() && hs@[i as int].name@ == name@ && forall|j: int|
                0 <= j < i ==> hs@[j].name@ != name@,
            None => !has_header(headers_view(hs@), name@),
        },
{
    let mut i: usize = 0;
    while i < hs.len()
        invariant
            i <= hs@.len(),
            forall|j: int| 0 <= j < i ==> hs@[j].name@ != name@,
        decreases hs@.len() - i,
    {
        if bytes_eq(hs[i].name.as_slice(), name) {
            return Some(i);
        }
        i = i + 1;
    }
    assert forall|j: int| 0 <= j < hs@.len() implies #[trigger] headers_view(hs@)[j].0
        != name@ by {
        assert(headers_view(hs@)[j] == hs@[j]@);
    }
    None
}

/// In a list with distinct names, the first header with a name is the only one.
proof fn lemma_first_is_chosen(hs: HeaderList, name: Seq<u8>, i: int)
    requires
        names_distinct(hs),
        0 <= i < hs.len(),
        hs[i].0 == name,
    ensures
        has_header(hs, name),
        (choose|k: int| 0 <= k < hs.len() && #[trigger] hs[k].0 == name) == i,
{
    let k = choose|k: int| 0 <= k < hs.len() && #[trigger] hs[k].0 == name;
    assert(hs[k].0 == name);
    if k < i {
        assert(hs[k].0 != hs[i].0);
    } else if k > i {
        assert(hs[i].0 != hs[k].0);
    }
}

/// Sets a header in a list whose names are distinct; the names stay distinct.
pub fn set_header(hs: &mut Vec<Header>, name: Vec<u8>, value: Vec<u8>)
    requires
        names_distinct(headers_view(old(hs)@)),
    ensures
        headers_view(final(hs)@) == set_header_spec(headers_view(old(hs)@), name@, value@),
        names_distinct(headers_view(final(hs)@)),
{
    let ghost old_v = headers_view(hs@);
    let ghost n = name@;
    let ghost v = value@;
    match find_header(hs, name.as_slice()) {
        Some(i) => {
            proof {
                assert(old_v[i as int] == hs@[i as int]@);
                lemma_first_is_chosen(old_v, n, i as int);
            }
            hs.set(i, Header { name, value });
            assert(headers_view(hs@) =~= old_v.update(i as int, (n, v)));
        },
        None => {
            hs.push(Header { name, value });
            assert(headers_view(hs@) =~= old_v.push((n, v)));
            assert forall|a: int, b: int| 0 <= a < b < headers_view(hs@).len() implies #[trigger] headers_view(hs@)[a].0 != #[trigger] headers_view(hs@)[b].0 by {
                if b == old_v.len() {
                    assert(old_v[a].0 != n);
                }
            }
        },
    }
}

/// In a list with distinct names, `lookup` finds the value of the header with that name.
pub proof fn lemma_lookup_at(hs: HeaderList, name: Seq<u8>, i: int)
    requires
        names_distinct(hs),
        0 <= i < hs.len(),
        hs[i].0 == name,
    ensures
        lookup(hs, name) == Some(hs[i].1),
    decreases hs.len(),
{
    if i > 0 {
        assert(hs[0].0 != hs[i].0);
        lemma_lookup_at(hs.drop_first(), name, i - 1);
    }
}

/// A name that no header has is not found.
pub proof fn lemma_lookup_absent(hs: HeaderList, name: Seq<u8>)
    requires
        !has_header(hs, name),
    ensures
        lookup(hs, name) is None,
    decreases hs.len(),
{
    if hs.len() > 0 {
        assert(hs[0].0 != name);
        assert forall|i: int| 0 <= i < hs.drop_first().len() implies #[trigger] hs.drop_first()[i].0
            != name by {
            assert(hs[i + 1].0 != name);
        }
        lemma_lookup_absent(hs.drop_first(), name);
    }
}

/// Reading a header after setting it gives the value set, and leaves the other headers as they
/// were: a header list with distinct names behaves as a map.
pub proof fn lemma_set_then_lookup(hs: HeaderList, name: Seq<u8>, value: Seq<u8>, other: Seq<u8>)
    requires
        names_distinct(hs),
    ensures
        lookup(set_header_spec(hs, name, value), name) == Some(value),
        other != name ==> lookup(set_header_spec(hs, name, value), other) == lookup(hs, other),
        has_header(set_header_spec(hs, name, value), name),
{
    let s = set_header_spec(hs, name, value);
    if has_header(hs, name) {
        let i = choose|i: int| 0 <= i < hs.len() && #[trigger] hs[i].0 == name;
        assert(s[i].0 == name);
        assert(names_distinct(s)) by {
            assert forall|a: int, b: int| 0 <= a < b < s.len() implies #[trigger] s[a].0
                != #[trigger] s[b].0 by {
                assert(hs[a].0 != hs[b].0);
            }
        }
        lemma_lookup_at(s, name, i);
        if other != name {
            if has_header(hs, other) {
                let j = choose|j: int| 0 <= j < hs.len() && #[trigger] hs[j].0 == other;
                assert(s[j] == hs[j]);
                lemma_lookup_at(s, other, j);
                lemma_lookup_at(hs, other, j);
            } else {
                assert forall|j: int| 0 <= j < s.len() implies #[trigger] s[j].0 != other by {
                    if j != i {
                        assert(s[j] == hs[j]);
                    }
                }
                lemma_lookup_absent(s, other);
                lemma_lookup_absent(hs, other);
            }
        }
    } else {
        let i = hs.len() as int;
        assert(s[i].0 == name);
        assert(names_distinct(s)) by {
            assert forall|a: int, b: int| 0 <= a < b < s.len() implies #[trigger] s[a].0
                != #[trigger] s[b].0 by {
                if b < i {
                    assert(hs[a].0 != hs[b].0);
                }
            }
        }
        lemma_lookup_at(s, name, i);
        if other != name {
            if has_header(hs, other) {
                let j = choose|j: int| 0 <= j < hs.len() && #[trigger] hs[j].0 == other;
                assert(s[j] == hs[j]);
                lemma_lookup_at(s, other, j);
                lemma_lookup_at(hs, other, j);
            } else {
                assert forall|j: int| 0 <= j < s.len() implies #[trigger] s[j].0 != other by {
                    if j < i {
                        assert(s[j] == hs[j]);
                    }
                }
                lemma_lookup_absent(s, other);
                lemma_lookup_absent(hs, other);
            }
        }
    }
}

/// The name of the header that carries the date.
pub open spec fn date_name() -> Seq<u8> {
    seq!['D' as u8, 'a' as u8, 't' as u8, 'e' as u8]
}

/// The name of the header that carries the body length, as the builder fills it in.
pub open spec fn content_length_name() -> Seq<u8> {
    seq![
        'C' as u8, 'o' as u8, 'n' as u8, 't' as u8, 'e' as u8, 'n' as u8, 't' as u8, '-' as u8,
        'L' as u8, 'e' as u8, 'n' as u8, 'g' as u8, 't' as u8, 'h' as u8,
    ]
}

/// A response: a status, headers, a body and the stream it answers on.
#[derive(Debug)]
pub struct Response {
    pub status_code: StatusCode,
    pub headers: Vec<Header>,
    pub body: Vec<u8>,
    pub stream_id: u32,
}

/// A response as a value.
pub struct ResponseModel {
    pub status_code: StatusCode,
    pub headers: HeaderList,
    pub body: Seq<u8>,
    pub stream_id: u32,
}

impl View for Response {
    type V = ResponseModel;

    open spec fn view(&self) -> ResponseModel {
        ResponseModel {
            status_code: self.status_code,
            headers: headers_view(self.headers@),
            body: self.body@,
            stream_id: self.stream_id,
        }
    }
}

impl ResponseModel {
    /// The response as an HTTP/1.1 message: `HTTP/1.1 <status>\r\n`, the headers, an empty line
    /// and the body.
    pub open spec fn spec_to_bytes(self) -> Seq<u8> {
        seq!['H' as u8, 'T' as u8, 'T' as u8, 'P' as u8, '/' as u8, '1' as u8, '.' as u8, '1' as u8, ' ' as u8]
            + self.status_code.spec_status_text() + seq!['\r' as u8, '\n' as u8] + headers_bytes(
            self.headers,
        ) + seq!['\r' as u8, '\n' as u8] + self.body
    }
}

impl Response {
    /// A 400 response with no body.
    pub fn bad_request(stream_id: u32) -> (r: Self)
        ensures
            exists|date: Seq<u8>|
                r@ == ResponseBuilder::empty_with(StatusCode::BadRequest, stream_id).build_with(
                    date,
                ) && sendable_date(date),
    {
        ResponseBuilder::new().status_code(StatusCode::BadRequest).stream_id(stream_id).build()
    }

    /// A 404 response with no body.
    pub fn not_found(stream_id: u32) -> (r: Self)
        ensures
            exists|date: Seq<u8>|
                r@ == ResponseBuilder::empty_with(StatusCode::NotFound, stream_id).build_with(
                    date,
                ) && sendable_date(date),
    {
        ResponseBuilder::new().status_code(StatusCode::NotFound).stream_id(stream_id).build()
    }

    /// A 405 response with no body.
    pub fn method_not_allowed(stream_id: u32) -> (r: Self)
        ensures
            exists|date: Seq<u8>|
                r@ == ResponseBuilder::empty_with(StatusCode::MethodNotAllowed, stream_id).build_with(
                    date,
                ) && sendable_date(date),
    {
        ResponseBuilder::new().status_code(StatusCode::MethodNotAllowed).stream_id(stream_id).build()
    }

    /// A 500 response with no body.
    pub fn internal_server_error(stream_id: u32) -> (r: Self)
        ensures
            exists|date: Seq<u8>|
                r@ == ResponseBuilder::empty_with(StatusCode::InteralServerError, stream_id).build_with(
                    date,
                ) && sendable_date(date),
    {
        ResponseBuilder::new().status_code(StatusCode::InteralServerError).stream_id(
            stream_id,
        ).build()
    }

    /// A 416 response with no body.
    pub fn range_not_satisfiable(stream_id: u32) -> (r: Self)
        ensures
            exists|date: Seq<u8>|
                r@ == ResponseBuilder::empty_with(StatusCode::RangeNotSatisfiable, stream_id).build_with(
                    date,
                ) && sendable_date(date),
    {
        ResponseBuilder::new().status_code(StatusCode::RangeNotSatisfiable).stream_id(
            stream_id,
        ).build()
    }

    /// The response as an HTTP/1.1 message.
    pub fn to_bytes(&self) -> (r: Vec<u8>)
        ensures
            r@ == self@.spec_to_bytes(),
    {
        let mut buffer: Vec<u8> = vec![
            'H' as u8, 'T' as u8, 'T' as u8, 'P' as u8, '/' as u8, '1' as u8, '.' as u8, '1' as u8,
            ' ' as u8,
        ];
        let status = self.status_code.status_text();
        extend_bytes(&mut buffer, status.as_slice());
        buffer.push('\r' as u8);
        buffer.push('\n' as u8);
        let ghost prefix = buffer@;
        let mut i: usize = 0;
        while i < self.headers.len()
            invariant
                i <= self.headers@.len(),
                buffer@ == prefix + headers_bytes(headers_view(self.headers@).subrange(0, i as int)),
            decreases self.headers@.len() - i,
        {
            let ghost before = buffer@;
            extend_bytes(&mut buffer, self.headers[i].name.as_slice());
            buffer.push(':' as u8);
            buffer.push(' ' as u8);
            extend_bytes(&mut buffer, self.headers[i].value.as_slice());
            buffer.push('\r' as u8);
            buffer.push('\n' as u8);
            let ghost hs = headers_view(self.headers@);
            assert(hs.subrange(0, i + 1).drop_last() =~= hs.subrange(0, i as int));
            assert(hs[i as int] == self.headers@[i as int]@);
            i = i + 1;
            assert(buffer@ =~= prefix + headers_bytes(hs.subrange(0, i as int)));
        }
        assert(headers_view(self.headers@).subrange(0, i as int) =~= headers_view(self.headers@));
        buffer.push('\r' as u8);
        buffer.push('\n' as u8);
        extend_bytes(&mut buffer, self.body.as_slice());
        assert(buffer@ =~= self@.spec_to_bytes());
        buffer
    }
}

/// Collects the parts of a response. The header names stay distinct: setting a header again
/// replaces its value.
pub struct ResponseBuilder {
    status_code: StatusCode,
    headers: Vec<Header>,
    body: Option<Vec<u8>>,
    stream_id: u32,
}

/// What a response builder has collected, as a value.
pub struct ResponseBuilderModel {
    pub status_code: StatusCode,
    pub headers: HeaderList,
    pub body: Option<Seq<u8>>,
    pub stream_id: u32,
}

impl View for ResponseBuilder {
    type V = ResponseBuilderModel;

    closed spec fn view(&self) -> ResponseBuilderModel {
        ResponseBuilderModel {
            status_code: self.status_code,
            headers: headers_view(self.headers@),
            body: match self.body {
                Some(b) => Some(b@),
                None => None,
            },
            stream_id: self.stream_id,
        }
    }
}

impl ResponseBuilderModel {
    /// The response that building gives, with `date` as the value of the `Date` header: a `Date`
    /// header is added unless one was set, then a `Content-Length` header with the body length
    /// unless one was set; no body is an empty body.
    pub open spec fn build_with(self, date: Seq<u8>) -> ResponseModel {
        let body = match self.body {
            Some(b) => b,
            None => Seq::empty(),
        };
        let h1 = if has_header(self.headers, date_name()) {
            self.headers
        } else {
            self.headers.push((date_name(), date))
        };
        let h2 = if has_header(h1, content_length_name()) {
            h1
        } else {
            h1.push((content_length_name(), decimal(body.len())))
        };
        ResponseModel { status_code: self.status_code, headers: h2, body, stream_id: self.stream_id }
    }
}

impl ResponseBuilder {
    #[verifier::type_invariant]
    closed spec fn inv(self) -> bool {
        names_distinct(headers_view(self.headers@))
    }

    /// A builder that has collected a status and a stream and nothing else.
    pub open spec fn empty_with(status: StatusCode, stream_id: u32) -> ResponseBuilderModel {
        ResponseBuilderModel {
            status_code: status,
            headers: Seq::empty(),
            body: None,
            stream_id,
        }
    }

    /// A builder with status 500, no headers, no body and stream 0.
    pub fn new() -> (r: Self)
        ensures
            r@ == Self::empty_with(StatusCode::InteralServerError, 0),
            names_distinct(r@.headers),
    {
        let r = ResponseBuilder {
            status_code: StatusCode::InteralServerError,
            headers: Vec::new(),
            body: None,
            stream_id: 0,
        };
        assert(r@.headers =~= Seq::<(Seq<u8>, Seq<u8>)>::empty());
        r
    }

    pub fn status_code(self, code: StatusCode) -> (r: Self)
        ensures
            r@ == (ResponseBuilderModel { status_code: code, ..self@ }),
    {
        proof {
            use_type_invariant(&self);
        }
        ResponseBuilder { status_code: code, ..self }
    }

    /// Sets a header: a header with this name gets the new value.
    pub fn header(self, name: Vec<u8>, value: Vec<u8>) -> (r: Self)
        ensures
            r@ == (ResponseBuilderModel {
                headers: set_header_spec(self@.headers, name@, value@),
                ..self@
            }),
            names_distinct(self@.headers),
            names_distinct(r@.headers),
    {
        proof {
            use_type_invariant(&self);
        }
        let ResponseBuilder { status_code, mut headers, body, stream_id } = self;
        set_header(&mut headers, name, value);
        ResponseBuilder { status_code, headers, body, stream_id }
    }

    pub fn body(self, body: Vec<u8>) -> (r: Self)
        ensures
            r@ == (ResponseBuilderModel { body: Some(body@), ..self@ }),
    {
        proof {
            use_type_invariant(&self);
        }
        ResponseBuilder { body: Some(body), ..self }
    }

    pub fn stream_id(self, stream_id: u32) -> (r: Self)
        ensures
            r@ == (ResponseBuilderModel { stream_id, ..self@ }),
    {
        proof {
            use_type_invariant(&self);
        }
        ResponseBuilder { stream_id, ..self }
    }

    /// The response, with `date` as the date that it is sent on.
    pub fn build_with_date(self, date: Vec<u8>) -> (r: Response)
        ensures
            r@ == self@.build_with(date@),
    {
        proof {
            use_type_invariant(&self);
        }
        let ResponseBuilder { status_code, mut headers, body, stream_id } = self;
        let ghost m = self@;
        let body = match body {
            Some(b) => b,
            None => Vec::new(),
        };
        let date_key: Vec<u8> = vec!['D' as u8, 'a' as u8, 't' as u8, 'e' as u8];
        assert(date_key@ =~= date_name());
        let ghost h0 = headers_view(headers@);
        match find_header(&headers, date_key.as_slice()) {
            Some(i) => {
                assert(h0[i as int] == headers@[i as int]@);
                assert(h0[i as int].0 == date_name());
                assert(has_header(h0, date_name()));
            },
            None => {
                headers.push(Header { name: date_key, value: date });
                assert(headers_view(headers@) =~= h0.push((date_name(), date@)));
            },
        }
        let ghost h1 = headers_view(headers@);
        let cl_key: Vec<u8> = vec![
            'C' as u8, 'o' as u8, 'n' as u8, 't' as u8, 'e' as u8, 'n' as u8, 't' as u8, '-' as u8,
            'L' as u8, 'e' as u8, 'n' as u8, 'g' as u8, 't' as u8, 'h' as u8,
        ];
        assert(cl_key@ =~= content_length_name());
        match find_header(&headers, cl_key.as_slice()) {
            Some(i) => {
                assert(h1[i as int] == headers@[i as int]@);
                assert(h1[i as int].0 == content_length_name());
                assert(has_header(h1, content_length_name()));
            },
            None => {
                let len = decimal_bytes(body.len() as u64);
                headers.push(Header { name: cl_key, value: len });
                assert(headers_view(headers@) =~= h1.push(
                    (content_length_name(), decimal(body@.len())),
                ));
            },
        }
        let r = Response { status_code, headers, body, stream_id };
        assert(r@.body == (match m.body {
            Some(b) => b,
            None => Seq::<u8>::empty(),
        }));
        r
    }

    /// The response, dated now.
    pub fn build(self) -> (r: Response)
        ensures
            exists|date: Seq<u8>| r@ == self@.build_with(date) && sendable_date(date),
    {
        let date = now_date();
        let ghost d = date@;
        let r = self.build_with_date(date);
        assert(r@ == self@.build_with(d) && sendable_date(d));
        r
    }
}

} // verus!
