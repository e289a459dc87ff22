use vstd::prelude::*;

use crate::http2::header_builder::pairs_view;
use crate::response::HeaderList;

verus! {

/// The HPACK decoder of `hpack`, with its dynamic table.
#[verifier::external_type_specification]
#[verifier::external_body]
pub struct ExDecoder<'a>(hpack::Decoder<'a>);

/// The HPACK encoder of `hpack`, with its dynamic table.
#[verifier::external_type_specification]
#[verifier::external_body]
pub struct ExEncoder<'a>(hpack::Encoder<'a>);

/// The error that `hpack` reports for a header block it cannot decode.
#[verifier::external_type_specification]
#[verifier::external_body]
pub struct ExDecoderError(hpack::decoder::DecoderError);

/// What `hpack::Decoder::decode` gives for `block`, for a decoder made by `Decoder::new` that
/// has been handed exactly the blocks of `history`, in order: the decoded (name, value) list,
/// or `None` when it reports an error. The decoder's dynamic table is a function of those
/// blocks, so the result is a function of the two arguments.
pub uninterp spec fn hpack_decode(history: Seq<Seq<u8>>, block: Seq<u8>) -> Option<HeaderList>;

/// What `hpack::Encoder::encode` gives for the (name, value) list `headers`, for an encoder made
/// by `Encoder::new` that has been handed exactly the lists of `history`, in order.
pub uninterp spec fn hpack_encode(history: Seq<HeaderList>, headers: HeaderList) -> Seq<u8>;

/// The connection's HPACK decoder, with the blocks that it has been handed since it was made.
pub struct HpackDecoder<'a> {
    decoder: hpack::Decoder<'a>,
    history: Ghost<Seq<Seq<u8>>>,
}

impl<'a> View for HpackDecoder<'a> {
    /// The blocks handed to the decoder, in order.
    type V = Seq<Seq<u8>>;

    closed spec fn view(&self) -> Seq<Seq<u8>> {
        self.history@
    }
}

/// The connection's HPACK encoder, with the header lists that it has been handed since it was
/// made.
pub struct HpackEncoder<'a> {
    encoder: hpack::Encoder<'a>,
    history: Ghost<Seq<HeaderList>>,
}

impl<'a> View for HpackEncoder<'a> {
    /// The header lists handed to the encoder, in order.
    type V = Seq<HeaderList>;

    closed spec fn view(&self) -> Seq<HeaderList> {
        self.history@
    }
}

/// Calls `hpack::Decoder::new`: a decoder with an empty dynamic table.
#[verifier::external_body]
fn new_decoder<'a>() -> (r: hpack::Decoder<'a>) {
    hpack::Decoder::new()
}

/// Calls `hpack::Encoder::new`: an encoder with an empty dynamic table.
#[verifier::external_body]
fn new_encoder<'a>() -> (r: hpack::Encoder<'a>) {
    hpack::Encoder::new()
}

/// Calls `hpack::Decoder::decode` on a whole header block. The result is `hpack_decode` of the
/// blocks handed to the decoder before and of this block, which joins them. `decode` panics
/// (an `unwrap` in `update_max_dynamic_size`) when it reaches a dynamic table size update whose
/// integer is cut short or too long; `requires` leaves out every block in which the walk of
/// `hpack_size_updates_ok` finds one.
#[verifier::external_body]
fn decode_block(d: &mut HpackDecoder, block: &[u8]) -> (r: Result<
    Vec<(Vec<u8>, Vec<u8>)>,
    hpack::decoder::DecoderError,
>)
    requires
        hpack_size_updates_ok(block@),
    ensures
        final(d)@ == old(d)@.push(block@),
        match r {
            Ok(v) => hpack_decode(old(d)@, block@) == Some(pairs_view(v@)),
            Err(_) => hpack_decode(old(d)@, block@) is None,
        },
{
    d.decoder.decode(block)
}

/// Calls `hpack::Encoder::encode` on the (name, value) pairs, in order. The bytes are
/// `hpack_encode` of the lists handed to the encoder before and of these pairs, which join them.
#[verifier::external_body]
fn encode_block(e: &mut HpackEncoder, headers: &Vec<(Vec<u8>, Vec<u8>)>) -> (r: Vec<u8>)
    ensures
        final(e)@ == old(e)@.push(pairs_view(headers@)),
        r@ == hpack_encode(old(e)@, pairs_view(headers@)),
{
    e.encoder.encode(headers.iter().map(|h| (h.0.as_slice(), h.1.as_slice())))
}

impl<'a> HpackDecoder<'a> {
    /// A decoder that has been handed no block.
    pub fn new() -> (r: Self)
        ensures
            r@ == Seq::<Seq<u8>>::empty(),
    {
        HpackDecoder { decoder: new_decoder(), history: Ghost(Seq::empty()) }
    }

    /// Decodes a whole header block (see `decode_block`).
    pub fn decode(&mut self, block: &[u8]) -> (r: Result<
        Vec<(Vec<u8>, Vec<u8>)>,
        hpack::decoder::DecoderError,
    >)
        requires
            hpack_size_updates_ok(block@),
        ensures
            final(self)@ == old(self)@.push(block@),
            match r {
                Ok(v) => hpack_decode(old(self)@, block@) == Some(pairs_view(v@)),
                Err(_) => hpack_decode(old(self)@, block@) is None,
            },
    {
        decode_block(self, block)
    }
}

impl<'a> HpackEncoder<'a> {
    /// An encoder that has been handed no header list.
    pub fn new() -> (r: Self)
        ensures
            r@ == Seq::<HeaderList>::empty(),
    {
        HpackEncoder { encoder: new_encoder(), history: Ghost(Seq::empty()) }
    }

    /// Encodes a header list (see `encode_block`).
    pub fn encode(&mut self, headers: &Vec<(Vec<u8>, Vec<u8>)>) -> (r: Vec<u8>)
        ensures
            final(self)@ == old(self)@.push(pairs_view(headers@)),
            r@ == hpack_encode(old(self)@, pairs_view(headers@)),
    {
        encode_block(self, headers)
    }
}

/// An HPACK integer with a prefix of `m` values (128, 64, 32 or 16: 7, 6, 5 or 4 bits) at the
/// start of `s`: the bytes it takes and its value; `None` when it is cut short or takes more
/// than 5 bytes. When the prefix is all ones, continuation bytes follow, 7 bits each, least
/// significant first, the last without its top bit.
pub open spec fn hpack_int(s: Seq<u8>, m: nat) -> Option<(nat, nat)> {
    if s.len() < 1 {
        None
    } else if (s[0] as nat) % m < m - 1 {
        Some((1, (s[0] as nat) % m))
    } else {
        match hpack_int_rest(s, 1, 1) {
            Some((n, v)) => Some((n, ((m - 1) + v) as nat)),
            None => None,
        }
    }
}

/// The continuation bytes of an HPACK integer from index `i`, byte `i` being worth `mult`
/// times its low 7 bits: the index past the last one and their value.
pub open spec fn hpack_int_rest(s: Seq<u8>, i: nat, mult: nat) -> Option<(nat, nat)>
    decreases 5 - i,
{
    if i >= s.len() || i >= 5 {
        None
    } else if s[i as int] < 128 {
        Some((i + 1, (s[i as int] as nat % 128) * mult))
    } else if i + 1 >= 5 {
        None
    } else {
        match hpack_int_rest(s, i + 1, mult * 128) {
            Some((n, v)) => Some((n, (s[i as int] as nat % 128) * mult + v)),
            None => None,
        }
    }
}

/// The bytes that an HPACK string literal at the start of `s` takes: its length (an integer
/// with a 7-bit prefix) and that many bytes; `None` when they are not all there.
pub open spec fn hpack_str(s: Seq<u8>) -> Option<nat> {
    match hpack_int(s, 128) {
        Some((c, len)) => if c + len > s.len() {
            None
        } else {
            Some(c + len)
        },
        None => None,
    }
}

/// One step of the walk through a header block.
pub enum HpackStep {
    /// The representation at the start takes this many bytes.
    Next(nat),
    /// The decoder reports an error here.
    Stop,
    /// A dynamic table size update whose integer is cut short or too long.
    Bad,
}

/// A literal representation with a name index of `m` prefix values: the index, then the name
/// as a string when the index is 0, then the value as a string.
pub open spec fn hpack_literal(s: Seq<u8>, m: nat) -> HpackStep {
    match hpack_int(s, m) {
        None => HpackStep::Stop,
        Some((c, idx)) => {
            let name_end: Option<nat> = if idx == 0 {
                match hpack_str(s.skip(c as int)) {
                    Some(k) => Some(c + k),
                    None => None,
                }
            } else {
                Some(c)
            };
            match name_end {
                None => HpackStep::Stop,
                Some(c2) => match hpack_str(s.skip(c2 as int)) {
                    Some(k) => HpackStep::Next(c2 + k),
                    None => HpackStep::Stop,
                },
            }
        },
    }
}

/// The representation at the start of `s`, by its first byte: `1xxxxxxx` indexed, `01xxxxxx`
/// literal with a 6-bit index, `001xxxxx` dynamic table size update, otherwise literal with a
/// 4-bit index. The walk does not look into the tables: where the decoder would report a
/// missing table entry or a bad Huffman code, it goes on.
pub open spec fn hpack_step(s: Seq<u8>) -> HpackStep {
    if s[0] >= 128 {
        match hpack_int(s, 128) {
            Some((c, _)) => HpackStep::Next(c),
            None => HpackStep::Stop,
        }
    } else if s[0] >= 64 {
        hpack_literal(s, 64)
    } else if s[0] >= 32 {
        match hpack_int(s, 32) {
            Some((c, _)) => HpackStep::Next(c),
            None => HpackStep::Bad,
        }
    } else {
        hpack_literal(s, 16)
    }
}

pub proof fn lemma_int_rest_len(s: Seq<u8>, i: nat, mult: nat)
    ensures
        hpack_int_rest(s, i, mult) matches Some((n, _)) ==> i + 1 <= n <= s.len(),
    decreases 5 - i,
{
    if i < s.len() && i < 5 && s[i as int] >= 128 && i + 1 < 5 {
        lemma_int_rest_len(s, i + 1, mult * 128);
    }
}

pub proof fn lemma_int_len(s: Seq<u8>, m: nat)
    requires
        m >= 1,
    ensures
        hpack_int(s, m) matches Some((c, _)) ==> 1 <= c <= s.len(),
{
    lemma_int_rest_len(s, 1, 1);
}

/// A step goes forward by at least one byte and stays within the block.
pub proof fn lemma_step_len(s: Seq<u8>)
    requires
        s.len() > 0,
    ensures
        hpack_step(s) matches HpackStep::Next(n) ==> 1 <= n <= s.len(),
{
    lemma_int_len(s, 128);
    lemma_int_len(s, 64);
    lemma_int_len(s, 32);
    lemma_int_len(s, 16);
    if let Some((c, idx)) = hpack_int(s, 64) {
        lemma_int_len(s.skip(c as int), 128);
        if let Some(k) = hpack_str(s.skip(c as int)) {
            lemma_int_len(s.skip((c + k) as int), 128);
        }
        lemma_int_len(s.skip(c as int), 128);
    }
    if let Some((c, idx)) = hpack_int(s, 16) {
        lemma_int_len(s.skip(c as int), 128);
        if let Some(k) = hpack_str(s.skip(c as int)) {
            lemma_int_len(s.skip((c + k) as int), 128);
        }
    }
}

/// Whether the walk through a header block from `pos` meets no malformed dynamic table size
/// update before the end of the block or the first error that the decoder would report.
pub open spec fn hpack_size_updates_ok_from(s: Seq<u8>, pos: nat) -> bool
    decreases s.len() - pos,
{
    if pos >= s.len() {
        true
    } else {
        proof {
            lemma_step_len(s.skip(pos as int));
        }
        match hpack_step(s.skip(pos as int)) {
            HpackStep::Next(n) => hpack_size_updates_ok_from(s, pos + n),
            HpackStep::Stop => true,
            HpackStep::Bad => false,
        }
    }
}

/// Whether decoding a header block cannot reach a malformed dynamic table size update.
pub open spec fn hpack_size_updates_ok(block: Seq<u8>) -> bool {
    hpack_size_updates_ok_from(block, 0)
}

/// Reads an HPACK integer with a prefix of `m` values at `pos` (see `hpack_int`).
fn read_hpack_int(s: &[u8], pos: usize, m: u8) -> (r: Option<(usize, u64)>)
    requires
        pos <= s@.len(),
        m == 128 || m == 64 || m == 32 || m == 16,
    ensures
        match hpack_int(s@.skip(pos as int), m as nat) {
            Some((c, v)) => r == Some((c as usize, v as u64)) && c <= s@.len() - pos && v
                < 0x10_0000_0000,
            None => r is None,
        },
{
    let ghost t = s@.skip(pos as int);
    proof {
        lemma_int_len(t, m as nat);
    }
    if pos >= s.len() {
        return None;
    }
    let first: u8 = s[pos] % m;
    assert(t[0] == s@[pos as int]);
    if first < m - 1 {
        return Some((1, first as u64));
    }
    let mut i: usize = 1;
    let mut mult: u64 = 1;
    let mut acc: u64 = 0;
    while i < 5
        invariant
            1 <= i <= 5,
            pos <= s@.len(),
            t == s@.skip(pos as int),
            (m as nat) >= 16,
            hpack_int(t, m as nat) == match hpack_int_rest(t, i as nat, mult as nat) {
                Some((n, v)) => Some((n, ((m - 1) + acc + v) as nat)),
                None => None::<(nat, nat)>,
            },
            mult == (if i == 1 { 1 } else if i == 2 { 128 } else if i == 3 { 16384 } else if i
                == 4 { 2097152 } else { 268435456u64 }),
            acc < mult * 128,
            m <= 128,
        decreases 5 - i,
    {
        if i >= s.len() - pos {
            return None;
        }
        let b: u8 = s[pos + i];
        assert(t[i as int] == b);
        let part: u64 = (b % 128) as u64 * mult;
        assert(part <= 127 * mult) by (nonlinear_arith)
            requires
                part == (b % 128) as u64 * mult,
                b % 128 <= 127,
        ;
        if b < 128 {
            proof {
                lemma_int_len(t, m as nat);
            }
            return Some((i + 1, (m - 1) as u64 + acc + part));
        }
        if i + 1 >= 5 {
            return None;
        }
        acc = acc + part;
        mult = mult * 128;
        i = i + 1;
    }
    None
}

/// The step of the walk at `pos` (see `hpack_step`): the bytes taken, or `None` when the walk
/// ends there, with whether it ends at a malformed size update.
fn step_at(block: &[u8], pos: usize) -> (r: Result<usize, bool>)
    requires
        pos < block@.len(),
    ensures
        match hpack_step(block@.skip(pos as int)) {
            HpackStep::Next(n) => r == Ok::<usize, bool>(n as usize) && 1 <= n <= block@.len()
                - pos,
            HpackStep::Stop => r == Err::<usize, bool>(false),
            HpackStep::Bad => r == Err::<usize, bool>(true),
        },
{
    let ghost t = block@.skip(pos as int);
    proof {
        lemma_step_len(t);
    }
    assert(t[0] == block@[pos as int]);
    let b: u8 = block[pos];
    if b >= 128 {
        match read_hpack_int(block, pos, 128) {
            Some((c, _)) => Ok(c),
            None => Err(false),
        }
    } else if b >= 64 {
        literal_at(block, pos, 64)
    } else if b >= 32 {
        match read_hpack_int(block, pos, 32) {
            Some((c, _)) => Ok(c),
            None => Err(true),
        }
    } else {
        literal_at(block, pos, 16)
    }
}

/// A literal representation at `pos` (see `hpack_literal`).
#[verifier::rlimit(40)]
fn literal_at(block: &[u8], pos: usize, m: u8) -> (r: Result<usize, bool>)
    requires
        pos < block@.len(),
        m == 64 || m == 16,
    ensures
        match hpack_literal(block@.skip(pos as int), m as nat) {
            HpackStep::Next(n) => r == Ok::<usize, bool>(n as usize),
            HpackStep::Stop => r == Err::<usize, bool>(false),
            HpackStep::Bad => r == Err::<usize, bool>(true),
        },
{
    let ghost t = block@.skip(pos as int);
    let (c, idx) = match read_hpack_int(block, pos, m) {
        Some(ci) => ci,
        None => {
            return Err(false);
        },
    };
    let blen: usize = block.len();
    let ghost hc = hpack_int(t, m as nat)->Some_0;
    assert(hc.0 <= blen - pos);
    assert(c == hc.0 && idx == hc.1);
    let mut c2: usize = c;
    if idx == 0 {
        assert(t.skip(c as int) =~= block@.skip(pos + c));
        match read_hpack_str(block, pos + c) {
            Some(k) => {
                assert(k <= block@.len() - (pos + c));
                c2 = c + k;
            },
            None => {
                return Err(false);
            },
        }
    }
    assert(t.skip(c2 as int) =~= block@.skip(pos + c2));
    assert(hpack_int(t, m as nat) == Some((c as nat, idx as nat)));
    let ghost name_end: Option<nat> = if idx == 0 {
        match hpack_str(t.skip(c as int)) {
            Some(k) => Some((c + k) as nat),
            None => None,
        }
    } else {
        Some(c as nat)
    };
    assert(name_end == Some(c2 as nat));
    match read_hpack_str(block, pos + c2) {
        Some(k) => {
            assert(hpack_literal(t, m as nat) == HpackStep::Next((c2 + k) as nat));
            Ok(c2 + k)
        },
        None => Err(false),
    }
}

/// Whether decoding a header block cannot reach a malformed dynamic table size update (see
/// `hpack_size_updates_ok`).
pub fn size_updates_ok(block: &[u8]) -> (r: bool)
    ensures
        r == hpack_size_updates_ok(block@),
{
    let mut pos: usize = 0;
    while pos < block.len()
        invariant
            pos <= block@.len(),
            hpack_size_updates_ok(block@) == hpack_size_updates_ok_from(block@, pos as nat),
        decreases block@.len() - pos,
    {
        match step_at(block, pos) {
            Ok(n) => {
                pos = pos + n;
            },
            Err(bad) => {
                return !bad;
            },
        }
    }
    true
}

/// The bytes that an HPACK string literal at `pos` takes (see `hpack_str`).
fn read_hpack_str(s: &[u8], pos: usize) -> (r: Option<usize>)
    requires
        pos <= s@.len(),
    ensures
        match hpack_str(s@.skip(pos as int)) {
            Some(k) => r == Some(k as usize) && k <= s@.len() - pos,
            None => r is None,
        },
{
    match read_hpack_int(s, pos, 128) {
        Some((c, len)) => {
            if len > (s.len() - pos - c) as u64 {
                None
            } else {
                Some(c + len as usize)
            }
        },
        None => None,
    }
}

} // verus!
