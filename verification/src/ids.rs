//! Identities and reservation handles.
//!
//! On the wire both are 32-byte opaque values. The library holds them as
//! four 64-bit words in little-endian order, so that equality is structural
//! and the byte encoding is a plain function of the words.

use vstd::prelude::*;

verus! {

/// A 32-byte actor identity, stored as four little-endian 64-bit words:
/// `w0` holds bytes 0..8, `w1` bytes 8..16, and so on.
#[derive(Clone, Copy, Debug, PartialEq, Eq, Structural)]
pub struct ActorId {
    pub w0: u64,
    pub w1: u64,
    pub w2: u64,
    pub w3: u64,
}

impl ActorId {
    /// The null identity: all 32 bytes zero. A fresh pet's token actor
    /// defaults to it, and a token approval against it is refused.
    pub fn null() -> (r: ActorId)
        ensures
            r == ActorId::spec_null(),
    {
        ActorId { w0: 0, w1: 0, w2: 0, w3: 0 }
    }

    pub open spec fn spec_null() -> ActorId {
        ActorId { w0: 0, w1: 0, w2: 0, w3: 0 }
    }

    pub fn from_words(w0: u64, w1: u64, w2: u64, w3: u64) -> (r: ActorId)
        ensures
            r == (ActorId { w0, w1, w2, w3 }),
    {
        ActorId { w0, w1, w2, w3 }
    }
}

/// An opaque handle to a pre-purchased gas reservation, 32 bytes on the wire,
/// held as four little-endian 64-bit words like `ActorId`.
#[derive(Clone, Copy, Debug, PartialEq, Eq, Structural)]
pub struct ReservationId {
    pub w0: u64,
    pub w1: u64,
    pub w2: u64,
    pub w3: u64,
}

impl ReservationId {
    pub fn from_words(w0: u64, w1: u64, w2: u64, w3: u64) -> (r: ReservationId)
        ensures
            r == (ReservationId { w0, w1, w2, w3 }),
    {
        ReservationId { w0, w1, w2, w3 }
    }
}

} // verus!
