use vstd::prelude::*;

verus! {

/// A stream that the peer has reserved with a PUSH_PROMISE. No frame is handled in this state.
#[derive(Clone, Copy, Debug, PartialEq, Eq, Structural)]
pub struct HTTP2StreamReservedRemote {
    pub id: u32,
}

impl HTTP2StreamReservedRemote {
    pub fn new(id: u32) -> (r: Self)
        ensures
            r.id == id,
    {
        Self { id }
    }
}

} // verus!
