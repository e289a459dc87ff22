use vstd::prelude::*;

use crate::bytes::{bytes_eq, extend_bytes};
use crate::http2::codec::{hpack_decode, hpack_size_updates_ok, size_updates_ok, HpackDecoder};
use crate::http2::error::{HTTP2Error, HTTP2ErrorCode, StreamError};
use crate::response::{names_distinct, set_header, set_header_spec, HeaderList};
use crate::text::{from_utf8_lossy, utf8_lossy};
use crate::types::{headers_view, Header};

verus! {

/// (name, value) pairs, as values.
pub open spec fn pairs_view(v: Seq<(Vec<u8>, Vec<u8>)>) -> HeaderList {
    v.map_values(|p: (Vec<u8>, Vec<u8>)| (p.0@, p.1@))
}

/// The headers that a decoded header list gives: each pair is set in turn, so a later value of
/// a name replaces an earlier one, and names keep the place of their first occurrence.
pub open spec fn merge_pairs(d: HeaderList) -> HeaderList
    decreases d.len(),
{
    if d.len() == 0 {
        Seq::empty()
    } else {
        set_header_spec(merge_pairs(d.drop_last()), d.last().0, d.last().1)
    }
}

/// Whether a name holds an ASCII capital letter.
pub open spec fn has_uppercase(name: Seq<u8>) -> bool {
    exists|i: int| 0 <= i < name.len() && 65 <= #[trigger] name[i] <= 90
}

/// Whether a name is that of a pseudo-header: it starts with `:`.
pub open spec fn is_pseudo(name: Seq<u8>) -> bool {
    name.len() > 0 && name[0] == ':' as u8
}

pub open spec fn method_pseudo() -> Seq<u8> {
    seq![':' as u8, 'm' as u8, 'e' as u8, 't' as u8, 'h' as u8, 'o' as u8, 'd' as u8]
}

pub open spec fn scheme_pseudo() -> Seq<u8> {
    seq![':' as u8, 's' as u8, 'c' as u8, 'h' as u8, 'e' as u8, 'm' as u8, 'e' as u8]
}

pub open spec fn authority_pseudo() -> Seq<u8> {
    seq![
        ':' as u8, 'a' as u8, 'u' as u8, 't' as u8, 'h' as u8, 'o' as u8, 'r' as u8, 'i' as u8,
        't' as u8, 'y' as u8,
    ]
}

pub open spec fn path_pseudo() -> Seq<u8> {
    seq![':' as u8, 'p' as u8, 'a' as u8, 't' as u8, 'h' as u8]
}

/// The pseudo-headers that a request may carry.
pub open spec fn is_request_pseudo(name: Seq<u8>) -> bool {
    name == method_pseudo() || name == scheme_pseudo() || name == authority_pseudo() || name
        == path_pseudo()
}

/// A request header list: no name holds a capital letter, every pseudo-header is one that a
/// request may carry, and no pseudo-header follows a regular header.
pub open spec fn valid_request_headers(hs: HeaderList) -> bool {
    &&& forall|i: int| 0 <= i < hs.len() ==> !has_uppercase(#[trigger] hs[i].0)
    &&& forall|i: int| 0 <= i < hs.len() && is_pseudo(#[trigger] hs[i].0) ==> is_request_pseudo(
        hs[i].0,
    )
    &&& forall|i: int, j: int|
        0 <= i < j < hs.len() && !is_pseudo(#[trigger] hs[i].0) ==> !is_pseudo(#[trigger] hs[j].0)
}

/// Names and values read as UTF-8 text, invalid sequences replaced (see `utf8_lossy`).
pub open spec fn lossy_pairs(d: HeaderList) -> HeaderList {
    d.map_values(|p: (Seq<u8>, Seq<u8>)| (utf8_lossy(p.0), utf8_lossy(p.1)))
}

/// The headers that a decoded list gives on a stream: names and values read as text, the
/// merged list, or a stream error `PROTOCOL_ERROR` when it is not a valid request header list.
pub open spec fn spec_headers_from(d: HeaderList, stream_id: u32) -> Result<HeaderList, HTTP2Error> {
    let hs = merge_pairs(lossy_pairs(d));
    if valid_request_headers(hs) {
        Ok(hs)
    } else {
        Err(HTTP2Error::Stream(StreamError { stream_id, error_code: HTTP2ErrorCode::ProtocolError }))
    }
}

/// A result of headers, as a value.
pub open spec fn headers_result_view(r: Result<Vec<Header>, HTTP2Error>) -> Result<
    HeaderList,
    HTTP2Error,
> {
    match r {
        Ok(hs) => Ok(headers_view(hs@)),
        Err(e) => Err(e),
    }
}

/// Merging keeps names distinct.
pub proof fn lemma_merge_distinct(d: HeaderList)
    ensures
        names_distinct(merge_pairs(d)),
    decreases d.len(),
{
    if d.len() > 0 {
        lemma_merge_distinct(d.drop_last());
        crate::response::lemma_set_then_lookup(
            merge_pairs(d.drop_last()),
            d.last().0,
            d.last().1,
            d.last().0,
        );
        lemma_set_keeps_distinct(merge_pairs(d.drop_last()), d.last().0, d.last().1);
    }
}

/// Setting a header keeps the names of a list distinct.
pub proof fn lemma_set_keeps_distinct(hs: HeaderList, name: Seq<u8>, value: Seq<u8>)
    requires
        names_distinct(hs),
    ensures
        names_distinct(set_header_spec(hs, name, value)),
{
    let s = set_header_spec(hs, name, value);
    if crate::response::has_header(hs, name) {
        let i = choose|i: int| 0 <= i < hs.len() && #[trigger] hs[i].0 == name;
        assert forall|a: int, b: int| 0 <= a < b < s.len() implies #[trigger] s[a].0
            != #[trigger] s[b].0 by {
            assert(hs[a].0 != hs[b].0);
        }
    } else {
        assert forall|a: int, b: int| 0 <= a < b < s.len() implies #[trigger] s[a].0
            != #[trigger] s[b].0 by {
            if b < hs.len() {
                assert(hs[a].0 != hs[b].0);
            } else {
                assert(hs[a].0 != name);
            }
        }
    }
}

/// Whether a name holds an ASCII capital letter.
fn name_has_uppercase(name: &[u8]) -> (r: bool)
    ensures
        r == has_uppercase(name@),
{
    let mut i: usize = 0;
    while i < name.len()
        invariant
            i <= name@.len(),
            forall|j: int| 0 <= j < i ==> !(65 <= #[trigger] name@[j] <= 90),
        decreases name@.len() - i,
    {
        if 65 <= name[i] && name[i] <= 90 {
            return true;
        }
        i = i + 1;
    }
    false
}

/// Whether a name is that of a pseudo-header that a request may carry.
fn name_is_request_pseudo(name: &[u8]) -> (r: bool)
    ensures
        r == is_request_pseudo(name@),
{
    let m: Vec<u8> = vec![':' as u8, 'm' as u8, 'e' as u8, 't' as u8, 'h' as u8, 'o' as u8, 'd' as u8];
    let s: Vec<u8> = vec![':' as u8, 's' as u8, 'c' as u8, 'h' as u8, 'e' as u8, 'm' as u8, 'e' as u8];
    let a: Vec<u8> = vec![
        ':' as u8, 'a' as u8, 'u' as u8, 't' as u8, 'h' as u8, 'o' as u8, 'r' as u8, 'i' as u8,
        't' as u8, 'y' as u8,
    ];
    let p: Vec<u8> = vec![':' as u8, 'p' as u8, 'a' as u8, 't' as u8, 'h' as u8];
    assert(m@ =~= method_pseudo());
    assert(s@ =~= scheme_pseudo());
    assert(a@ =~= authority_pseudo());
    assert(p@ =~= path_pseudo());
    bytes_eq(name, m.as_slice()) || bytes_eq(name, s.as_slice()) || bytes_eq(name, a.as_slice())
        || bytes_eq(name, p.as_slice())
}

/// Whether a list is a valid request header list (see `valid_request_headers`).
fn check_request_headers(hs: &Vec<Header>) -> (r: bool)
    ensures
        r == valid_request_headers(headers_view(hs@)),
{
    let ghost v = headers_view(hs@);
    let mut i: usize = 0;
    let mut seen_regular = false;
    while i < hs.len()
        invariant
            i <= hs@.len(),
            v == headers_view(hs@),
            forall|j: int| 0 <= j < i ==> !has_uppercase(#[trigger] v[j].0),
            forall|j: int| 0 <= j < i && is_pseudo(#[trigger] v[j].0) ==> is_request_pseudo(v[j].0),
            forall|a: int, b: int|
                0 <= a < b < i && !is_pseudo(#[trigger] v[a].0) ==> !is_pseudo(#[trigger] v[b].0),
            seen_regular <==> exists|j: int| 0 <= j < i && !is_pseudo(#[trigger] v[j].0),
        decreases hs@.len() - i,
    {
        assert(v[i as int] == hs@[i as int]@);
        let name = hs[i].name.as_slice();
        if name_has_uppercase(name) {
            assert(has_uppercase(v[i as int].0));
            return false;
        }
        let pseudo = name.len() > 0 && name[0] == ':' as u8;
        assert(pseudo == is_pseudo(v[i as int].0));
        if pseudo {
            if !name_is_request_pseudo(name) {
                assert(is_pseudo(v[i as int].0) && !is_request_pseudo(v[i as int].0));
                return false;
            }
            if seen_regular {
                let ghost k = choose|j: int| 0 <= j < i && !is_pseudo(#[trigger] v[j].0);
                assert(!is_pseudo(v[k].0) && is_pseudo(v[i as int].0));
                return false;
            }
        } else {
            seen_regular = true;
            assert(!is_pseudo(v[i as int].0));
        }
        i = i + 1;
    }
    true
}

/// The headers that a decoded header list gives on a stream (see `spec_headers_from`).
pub fn headers_from_decoded(decoded: &Vec<(Vec<u8>, Vec<u8>)>, stream_id: u32) -> (r: Result<
    Vec<Header>,
    HTTP2Error,
>)
    ensures
        headers_result_view(r) == spec_headers_from(pairs_view(decoded@), stream_id),
{
    let ghost d = lossy_pairs(pairs_view(decoded@));
    let mut headers: Vec<Header> = Vec::new();
    let mut i: usize = 0;
    assert(headers_view(headers@) =~= merge_pairs(d.subrange(0, 0)));
    while i < decoded.len()
        invariant
            i <= decoded@.len(),
            d == lossy_pairs(pairs_view(decoded@)),
            headers_view(headers@) == merge_pairs(d.subrange(0, i as int)),
            names_distinct(headers_view(headers@)),
        decreases decoded@.len() - i,
    {
        let name = from_utf8_lossy(decoded[i].0.as_slice());
        let value = from_utf8_lossy(decoded[i].1.as_slice());
        assert(d[i as int] == (name@, value@));
        set_header(&mut headers, name, value);
        assert(d.subrange(0, i + 1).drop_last() =~= d.subrange(0, i as int));
        i = i + 1;
    }
    assert(d.subrange(0, i as int) =~= d);
    if check_request_headers(&headers) {
        Ok(headers)
    } else {
        Err(HTTP2Error::Stream(StreamError { stream_id, error_code: HTTP2ErrorCode::ProtocolError }))
    }
}

/// Collects the fragments of a header block until it is complete.
#[derive(Debug)]
pub struct HeaderBuilder {
    data: Vec<u8>,
}

impl View for HeaderBuilder {
    type V = Seq<u8>;

    /// The bytes collected so far.
    closed spec fn view(&self) -> Seq<u8> {
        self.data@
    }
}

impl HeaderBuilder {
    pub fn new() -> (r: Self)
        ensures
            r@ == Seq::<u8>::empty(),
    {
        HeaderBuilder { data: Vec::new() }
    }

    /// Appends a fragment of the header block.
    pub fn new_fragment(&mut self, buf: Vec<u8>)
        ensures
            final(self)@ == old(self)@ + buf@,
    {
        extend_bytes(&mut self.data, buf.as_slice());
    }

    /// Whether part of a header block has been collected.
    pub fn waiting_for_continuation(&self) -> (r: bool)
        ensures
            r == (self@.len() > 0),
    {
        self.data.len() > 0
    }

    /// Decodes the collected block with the connection's decoder (see `spec_build`). The block
    /// is handed to the decoder when no size update in it is malformed (see
    /// `decoded_history`); it is cleared when it decodes, and kept otherwise.
    pub fn build(&mut self, decoder: &mut HpackDecoder, stream_id: u32) -> (r: Result<
        Vec<Header>,
        HTTP2Error,
    >)
        ensures
            headers_result_view(r) == spec_build(old(decoder)@, old(self)@, stream_id),
            final(decoder)@ == decoded_history(old(decoder)@, old(self)@),
            final(self)@ == if block_decodes(old(decoder)@, old(self)@) {
                Seq::<u8>::empty()
            } else {
                old(self)@
            },
    {
        if !size_updates_ok(self.data.as_slice()) {
            return Err(HTTP2Error::Connection(HTTP2ErrorCode::CompressionError));
        }
        match decoder.decode(self.data.as_slice()) {
            Err(_) => Err(HTTP2Error::Connection(HTTP2ErrorCode::CompressionError)),
            Ok(decoded) => {
                self.data.clear();
                headers_from_decoded(&decoded, stream_id)
            },
        }
    }
}

/// Whether a collected block is handed to the decoder and decodes: no size update in it is
/// malformed and the decoder reports no error.
pub open spec fn block_decodes(history: Seq<Seq<u8>>, block: Seq<u8>) -> bool {
    hpack_size_updates_ok(block) && hpack_decode(history, block) is Some
}

/// The blocks handed to the decoder once a collected block has been built: the block is added
/// unless a size update in it is malformed.
pub open spec fn decoded_history(history: Seq<Seq<u8>>, block: Seq<u8>) -> Seq<Seq<u8>> {
    if hpack_size_updates_ok(block) {
        history.push(block)
    } else {
        history
    }
}

/// What building a collected block gives, for a decoder that has been handed the blocks of
/// `history`: `Connection(COMPRESSION_ERROR)` when a size update in it is malformed or the
/// decoder reports an error; otherwise the headers that the decoded list gives (see
/// `spec_headers_from`).
pub open spec fn spec_build(history: Seq<Seq<u8>>, block: Seq<u8>, stream_id: u32) -> Result<
    HeaderList,
    HTTP2Error,
> {
    if !hpack_size_updates_ok(block) {
        Err(HTTP2Error::Connection(HTTP2ErrorCode::CompressionError))
    } else {
        match hpack_decode(history, block) {
            None => Err(HTTP2Error::Connection(HTTP2ErrorCode::CompressionError)),
            Some(d) => spec_headers_from(d, stream_id),
        }
    }
}

} // verus!
