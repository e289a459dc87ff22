use vstd::prelude::*;

use crate::bytes::be24;

verus! {

/// The read position past which the bytes already read are dropped.
pub const COMPACT_AFTER: usize = 32768;

/// A buffer of received bytes that hands them out in the order they came. Bytes already read
/// are dropped once enough of them pile up.
#[derive(Debug)]
pub struct GCBuffer {
    data: Vec<u8>,
    cursor: usize,
}

impl View for GCBuffer {
    /// The bytes not read yet, oldest first.
    type V = Seq<u8>;

    closed spec fn view(&self) -> Seq<u8> {
        self.data@.subrange(self.cursor as int, self.data@.len() as int)
    }
}

impl GCBuffer {
    #[verifier::type_invariant]
    closed spec fn inv(self) -> bool {
        self.cursor <= self.data@.len()
    }

    /// An empty buffer.
    pub fn new() -> (r: Self)
        ensures
            r@ == Seq::<u8>::empty(),
    {
        let r = GCBuffer { data: Vec::new(), cursor: 0 };
        assert(r@ =~= Seq::<u8>::empty());
        r
    }

    /// Appends bytes received.
    pub fn extend(&mut self, bytes: &[u8])
        ensures
            final(self)@ == old(self)@ + bytes@,
    {
        proof {
            use_type_invariant(&*self);
        }
        let cursor: usize = self.cursor;
        self.cursor = 0;
        let mut data: Vec<u8> = Vec::new();
        std::mem::swap(&mut data, &mut self.data);
        data.extend_from_slice(bytes);
        self.data = data;
        self.cursor = cursor;
        assert(self@ =~= old(self)@ + bytes@);
    }

    /// The next `n` bytes, left in the buffer.
    pub fn peek(&self, n: usize) -> (r: &[u8])
        requires
            n <= self@.len(),
        ensures
            r@ == self@.take(n as int),
    {
        proof {
            use_type_invariant(self);
        }
        assert(self@.len() == self.data@.len() - self.cursor);
        let len: usize = self.data.len();
        assert(n <= len - self.cursor);
        let r = vstd::slice::slice_subrange(self.data.as_slice(), self.cursor, self.cursor + n);
        assert(r@ =~= self@.take(n as int));
        r
    }

    /// Takes the next `n` bytes out of the buffer.
    pub fn read_n_bytes(&mut self, n: usize) -> (r: Vec<u8>)
        requires
            n <= old(self)@.len(),
        ensures
            r@ == old(self)@.take(n as int),
            final(self)@ == old(self)@.skip(n as int),
    {
        proof {
            use_type_invariant(&*self);
        }
        assert(self@.len() == self.data@.len() - self.cursor);
        let len: usize = self.data.len();
        assert(n <= len - self.cursor);
        let ret = crate::bytes::copy_range(self.data.as_slice(), self.cursor, self.cursor + n);
        self.cursor = self.cursor + n;
        assert(ret@ =~= old(self)@.take(n as int));
        assert(self@ =~= old(self)@.skip(n as int));
        self.compress();
        ret
    }

    /// The number of bytes not read yet.
    pub fn len(&self) -> (r: usize)
        ensures
            r == self@.len(),
    {
        proof {
            use_type_invariant(self);
        }
        self.data.len() - self.cursor
    }

    /// The position of the next byte to read among the bytes held.
    spec fn read_position(&self) -> nat {
        self.cursor as nat
    }

    /// All the bytes held: those already read, then those not read yet.
    spec fn held(&self) -> Seq<u8> {
        self.data@
    }

    /// Drops the bytes already read once the read position is past `COMPACT_AFTER`; the bytes
    /// not read yet stay. Otherwise nothing changes.
    fn compress(&mut self)
        ensures
            final(self)@ == old(self)@,
            old(self).read_position() > COMPACT_AFTER ==> final(self).read_position() == 0
                && final(self).held() == old(self)@,
            old(self).read_position() <= COMPACT_AFTER ==> final(self).read_position() == old(
                self,
            ).read_position() && final(self).held() == old(self).held(),
    {
        proof {
            use_type_invariant(&*self);
        }
        if self.cursor > COMPACT_AFTER {
            let cursor: usize = self.cursor;
            self.cursor = 0;
            let mut data: Vec<u8> = Vec::new();
            std::mem::swap(&mut data, &mut self.data);
            self.data = data.split_off(cursor);
            assert(self@ =~= old(self)@);
        }
    }
}

/// The length of the whole frame at the start of `unread`, header included: the 24-bit
/// payload length of its header plus 9, when all of those bytes are there.
pub open spec fn whole_frame_length(unread: Seq<u8>) -> Option<nat> {
    if unread.len() < 3 {
        None
    } else {
        let n = be24(unread[0], unread[1], unread[2]) + 9;
        if n <= unread.len() {
            Some(n)
        } else {
            None
        }
    }
}

impl GCBuffer {
    /// Takes the next whole frame out of the buffer, header included, when all of its bytes
    /// are there; otherwise leaves the buffer as it is.
    pub fn take_frame(&mut self) -> (r: Option<Vec<u8>>)
        ensures
            match whole_frame_length(old(self)@) {
                Some(n) => r matches Some(f) && f@ == old(self)@.take(n as int) && final(self)@
                    == old(self)@.skip(n as int),
                None => r is None && final(self)@ == old(self)@,
            },
    {
        if self.len() < 3 {
            return None;
        }
        let head = self.peek(3);
        let length: u32 = crate::util::u32_from_3_bytes([head[0], head[1], head[2]]);
        let full: usize = length as usize + 9;
        if self.len() < full {
            return None;
        }
        Some(self.read_n_bytes(full))
    }
}

/// Bytes come out of the buffer in the order they went in: after `pushed` is appended to the
/// unread bytes `unread`, reading `n` of them, no more than were unread before, gives the first
/// `n` of `unread`, and leaves the rest of `unread` followed by `pushed`.
pub proof fn lemma_first_in_first_out(unread: Seq<u8>, pushed: Seq<u8>, n: int)
    requires
        0 <= n <= unread.len(),
    ensures
        (unread + pushed).take(n) == unread.take(n),
        (unread + pushed).skip(n) == unread.skip(n) + pushed,
{
    assert((unread + pushed).take(n) =~= unread.take(n));
    assert((unread + pushed).skip(n) =~= unread.skip(n) + pushed);
}

} // verus!
