use vstd::prelude::*;

verus! {

/// The value of a 24-bit big-endian integer given by its three bytes.
pub open spec fn be24(b0: u8, b1: u8, b2: u8) -> nat {
    (b0 as nat) * 65536 + (b1 as nat) * 256 + (b2 as nat)
}

/// The value of the big-endian 16-bit integer at offset `i` of `s`.
pub open spec fn be16_at(s: Seq<u8>, i: int) -> nat {
    (s[i] as nat) * 256 + (s[i + 1] as nat)
}

/// The value of the big-endian 32-bit integer at offset `i` of `s`.
pub open spec fn be32_at(s: Seq<u8>, i: int) -> nat {
    (s[i] as nat) * 16777216 + (s[i + 1] as nat) * 65536 + (s[i + 2] as nat) * 256 + (
    s[i + 3] as nat)
}

/// The four bytes of `v`, most significant first.
pub open spec fn be32_bytes(v: u32) -> Seq<u8> {
    seq![(v / 16777216) as u8, ((v / 65536) % 256) as u8, ((v / 256) % 256) as u8, (v % 256) as u8]
}

/// The two bytes of `v`, most significant first.
pub open spec fn be16_bytes(v: u16) -> Seq<u8> {
    seq![(v / 256) as u8, (v % 256) as u8]
}

/// The three low bytes of `v`, most significant first (the bits above the 24th are dropped).
pub open spec fn be24_bytes(v: u32) -> Seq<u8> {
    seq![((v / 65536) % 256) as u8, ((v / 256) % 256) as u8, (v % 256) as u8]
}

/// `n` zero bytes.
pub open spec fn zeros(n: nat) -> Seq<u8> {
    Seq::new(n, |i: int| 0u8)
}

/// Reading back the four bytes that `be32_bytes` writes gives the value again.
pub proof fn lemma_be32_roundtrip(v: u32)
    ensures
        be32_at(be32_bytes(v), 0) == v,
        forall|pre: Seq<u8>, post: Seq<u8>|
            #![trigger (pre + be32_bytes(v) + post)]
            be32_at(pre + be32_bytes(v) + post, pre.len() as int) == v,
{
    let b = be32_bytes(v);
    assert(b[0] as nat * 16777216 + b[1] as nat * 65536 + b[2] as nat * 256 + b[3] as nat == v)
        by (nonlinear_arith)
        requires
            b[0] == (v / 16777216) as u8,
            b[1] == ((v / 65536) % 256) as u8,
            b[2] == ((v / 256) % 256) as u8,
            b[3] == (v % 256) as u8,
    ;
    assert forall|pre: Seq<u8>, post: Seq<u8>|
        #![trigger (pre + be32_bytes(v) + post)]
        be32_at(pre + be32_bytes(v) + post, pre.len() as int) == v by {
        let s = pre + be32_bytes(v) + post;
        assert(s[pre.len() as int] == b[0]);
        assert(s[pre.len() as int + 1] == b[1]);
        assert(s[pre.len() as int + 2] == b[2]);
        assert(s[pre.len() as int + 3] == b[3]);
    }
}

/// Reading back the two bytes that `be16_bytes` writes gives the value again.
pub proof fn lemma_be16_roundtrip(v: u16)
    ensures
        be16_at(be16_bytes(v), 0) == v,
{
}

/// Reads the big-endian 32-bit integer at offset `off` of `buf`.
pub fn read_u32_be(buf: &[u8], off: usize) -> (r: u32)
    requires
        off + 4 <= buf@.len(),
    ensures
        r == be32_at(buf@, off as int),
{
    let b0: u8 = buf[off];
    let b1: u8 = buf[off + 1];
    let b2: u8 = buf[off + 2];
    let b3: u8 = buf[off + 3];
    let r: u32 = (b0 as u32) << 24u32 | (b1 as u32) << 16u32 | (b2 as u32) << 8u32 | (b3 as u32);
    assert(r == (b0 as u32) * 16777216 + (b1 as u32) * 65536 + (b2 as u32) * 256 + (b3 as u32))
        by (bit_vector)
        requires
            r == (b0 as u32) << 24u32 | (b1 as u32) << 16u32 | (b2 as u32) << 8u32 | (b3 as u32),
    ;
    r
}

/// Reads the big-endian 16-bit integer at offset `off` of `buf`.
pub fn read_u16_be(buf: &[u8], off: usize) -> (r: u16)
    requires
        off + 2 <= buf@.len(),
    ensures
        r == be16_at(buf@, off as int),
{
    let b0: u8 = buf[off];
    let b1: u8 = buf[off + 1];
    (b0 as u16) * 256 + (b1 as u16)
}

/// Appends the four bytes of `v`, most significant first.
pub fn push_u32_be(buf: &mut Vec<u8>, v: u32)
    ensures
        final(buf)@ == old(buf)@ + be32_bytes(v),
{
    buf.push((v / 16777216) as u8);
    buf.push(((v / 65536) % 256) as u8);
    buf.push(((v / 256) % 256) as u8);
    buf.push((v % 256) as u8);
}

/// Appends the two bytes of `v`, most significant first.
pub fn push_u16_be(buf: &mut Vec<u8>, v: u16)
    ensures
        final(buf)@ == old(buf)@ + be16_bytes(v),
{
    buf.push((v / 256) as u8);
    buf.push((v % 256) as u8);
}

/// Appends the three low bytes of `v`, most significant first.
pub fn push_u24_be(buf: &mut Vec<u8>, v: u32)
    ensures
        final(buf)@ == old(buf)@ + be24_bytes(v),
{
    buf.push(((v / 65536) % 256) as u8);
    buf.push(((v / 256) % 256) as u8);
    buf.push((v % 256) as u8);
}

/// Appends all of `src` to `dst`.
pub fn extend_bytes(dst: &mut Vec<u8>, src: &[u8])
    ensures
        final(dst)@ == old(dst)@ + src@,
{
    let ghost start = dst@;
    let mut i: usize = 0;
    while i < src.len()
        invariant
            i <= src@.len(),
            dst@ == start + src@.subrange(0, i as int),
        decreases src@.len() - i,
    {
        dst.push(src[i]);
        i = i + 1;
        assert(src@.subrange(0, i as int) == src@.subrange(0, i - 1) + seq![src@[i - 1]]);
    }
    assert(src@.subrange(0, i as int) == src@);
}

/// Appends `n` zero bytes to `dst`.
pub fn push_zeros(dst: &mut Vec<u8>, n: usize)
    ensures
        final(dst)@ == old(dst)@ + zeros(n as nat),
{
    let ghost start = dst@;
    let mut i: usize = 0;
    while i < n
        invariant
            i <= n,
            dst@ == start + zeros(i as nat),
        decreases n - i,
    {
        dst.push(0u8);
        i = i + 1;
        assert(zeros(i as nat) == zeros((i - 1) as nat).push(0u8));
    }
}

/// A copy of the bytes `buf[start..end]`.
pub fn copy_range(buf: &[u8], start: usize, end: usize) -> (r: Vec<u8>)
    requires
        start <= end <= buf@.len(),
    ensures
        r@ == buf@.subrange(start as int, end as int),
{
    let mut r: Vec<u8> = Vec::new();
    let mut i: usize = start;
    while i < end
        invariant
            start <= i <= end <= buf@.len(),
            r@ == buf@.subrange(start as int, i as int),
        decreases end - i,
    {
        r.push(buf[i]);
        i = i + 1;
        assert(buf@.subrange(start as int, i as int) == buf@.subrange(start as int, i - 1).push(
            buf@[i - 1],
        ));
    }
    r
}

/// Whether two byte strings are equal.
pub fn bytes_eq(a: &[u8], b: &[u8]) -> (r: bool)
    ensures
        r == (a@ == b@),
{
    if a.len() != b.len() {
        return false;
    }
    let mut i: usize = 0;
    while i < a.len()
        invariant
            a@.len() == b@.len(),
            i <= a@.len(),
            forall|j: int| 0 <= j < i ==> a@[j] == b@[j],
        decreases a@.len() - i,
    {
        if a[i] != b[i] {
            return false;
        }
        i = i + 1;
    }
    assert(a@ =~= b@);
    true
}

/// The decimal digits of `n`, most significant first, with no leading zeros.
pub open spec fn decimal(n: nat) -> Seq<u8>
    decreases n,
{
    if n < 10 {
        seq![('0' as u8 + n) as u8]
    } else {
        decimal(n / 10).push(('0' as u8 + n % 10) as u8)
    }
}

/// The decimal digits of `n`, as `to_string` writes them.
pub fn decimal_bytes(n: u64) -> (r: Vec<u8>)
    ensures
        r@ == decimal(n as nat),
    decreases n,
{
    if n < 10 {
        let r: Vec<u8> = vec![48u8 + n as u8];
        assert(r@ =~= decimal(n as nat));
        r
    } else {
        let mut r = decimal_bytes(n / 10);
        r.push(48u8 + (n % 10) as u8);
        r
    }
}

/// Whether a byte is an ASCII decimal digit.
pub open spec fn is_digit(b: u8) -> bool {
    48 <= b <= 57
}

/// The value of a string of decimal digits.
pub open spec fn digits_value(s: Seq<u8>) -> nat
    decreases s.len(),
{
    if s.len() == 0 {
        0
    } else {
        digits_value(s.drop_last()) * 10 + (s.last() - 48) as nat
    }
}

/// The digits of an integer that `s` writes: `s` without a leading `+`.
pub open spec fn usize_digits(s: Seq<u8>) -> Seq<u8> {
    if s.len() > 0 && s[0] == '+' as u8 {
        s.drop_first()
    } else {
        s
    }
}

/// Whether every byte of `s` is a decimal digit.
pub open spec fn all_digits(s: Seq<u8>) -> bool {
    forall|i: int| 0 <= i < s.len() ==> is_digit(#[trigger] s[i])
}

/// The unsigned integer that `s` writes, as `str::parse::<usize>` reads it: an optional `+`,
/// then one or more decimal digits, with a value that fits in `usize`.
pub open spec fn parse_usize(s: Seq<u8>) -> Option<usize> {
    let digits = usize_digits(s);
    if digits.len() > 0 && all_digits(digits) && digits_value(digits) <= usize::MAX {
        Some(digits_value(digits) as usize)
    } else {
        None
    }
}

/// Reads an unsigned integer as `parse_usize` says.
pub fn parse_usize_bytes(s: &[u8]) -> (r: Option<usize>)
    ensures
        r == parse_usize(s@),
{
    let mut i: usize = 0;
    if s.len() > 0 && s[0] == '+' as u8 {
        i = 1;
    }
    let ghost digits = usize_digits(s@);
    assert(digits =~= s@.subrange(i as int, s@.len() as int));
    let start: usize = i;
    if start >= s.len() {
        return None;
    }
    let mut value: usize = 0;
    while i < s.len()
        invariant
            start <= i <= s@.len(),
            start == 0 || start == 1,
            digits == s@.subrange(start as int, s@.len() as int),
            digits == usize_digits(s@),
            forall|j: int| start <= j < i ==> is_digit(#[trigger] s@[j]),
            value == digits_value(s@.subrange(start as int, i as int)),
        decreases s@.len() - i,
    {
        let c: u8 = s[i];
        if c < 48 || c > 57 {
            assert(!is_digit(digits[i - start]));
            assert(!all_digits(digits));
            return None;
        }
        let d: usize = (c - 48) as usize;
        assert(s@.subrange(start as int, i + 1).drop_last() =~= s@.subrange(start as int, i as int));
        if value > (usize::MAX - d) / 10 {
            proof {
                let pre = s@.subrange(start as int, i + 1);
                lemma_digits_value_prefix(digits, i + 1 - start);
                assert(digits.subrange(0, i + 1 - start) =~= pre);
                assert(digits_value(pre) == value * 10 + d) by (nonlinear_arith)
                    requires
                        digits_value(pre) == digits_value(pre.drop_last()) * 10 + (pre.last() - 48) as nat,
                        digits_value(pre.drop_last()) == value,
                        pre.last() - 48 == d,
                ;
                assert(value * 10 + d > usize::MAX) by (nonlinear_arith)
                    requires
                        value > (usize::MAX - d) / 10,
                        d <= 9,
                ;
            }
            return None;
        }
        value = value * 10 + d;
        i = i + 1;
    }
    assert(s@.subrange(start as int, i as int) =~= digits);
    assert(all_digits(digits));
    Some(value)
}

/// The value of a prefix of a string of digits is at most that of the whole.
pub proof fn lemma_digits_value_prefix(s: Seq<u8>, k: int)
    requires
        0 <= k <= s.len(),
    ensures
        digits_value(s.subrange(0, k)) <= digits_value(s),
    decreases s.len(),
{
    if k < s.len() {
        assert(s.drop_last().subrange(0, k) =~= s.subrange(0, k));
        lemma_digits_value_prefix(s.drop_last(), k);
        assert(digits_value(s.drop_last()) <= digits_value(s)) by (nonlinear_arith)
            requires
                digits_value(s) == digits_value(s.drop_last()) * 10 + (s.last() - 48) as nat,
        ;
    } else {
        assert(s.subrange(0, k) =~= s);
    }
}

} // verus!
