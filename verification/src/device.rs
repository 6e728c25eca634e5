//! Device identifiers: fixed-length opaque addresses of network participants.
//!
//! Identifiers are produced by an external identity component; the codec
//! only moves their bytes, so it models them as an opaque value of exactly
//! [`ID_LENGTH`] bytes.

use vstd::prelude::*;

verus! {

/// Byte length of a device identifier.
pub const ID_LENGTH: usize = 16;

/// A fixed-length opaque byte identifier addressing a network participant.
#[derive(Debug, PartialEq, Eq)]
pub struct DeviceId {
    bytes: Vec<u8>,
}

impl View for DeviceId {
    type V = Seq<u8>;

    closed spec fn view(&self) -> Seq<u8> {
        self.bytes@
    }
}

impl DeviceId {
    /// Every identifier holds exactly `ID_LENGTH` bytes.
    #[verifier::type_invariant]
    pub open spec fn wf(self) -> bool {
        self@.len() == ID_LENGTH
    }

    /// Build an identifier from its raw bytes.
    pub fn from_bytes(bytes: Vec<u8>) -> (id: DeviceId)
        requires
            bytes@.len() == ID_LENGTH,
        ensures
            id@ == bytes@,
    {
        DeviceId { bytes }
    }

    /// The identifier's raw bytes.
    pub fn as_bytes(&self) -> (bytes: &Vec<u8>)
        ensures
            bytes@ == self@,
    {
        &self.bytes
    }

    /// Append the identifier's bytes to `buf`.
    pub fn write_to(&self, buf: &mut Vec<u8>)
        ensures
            final(buf)@ == old(buf)@ + self@,
    {
        proof {
            use_type_invariant(self);
        }
        let mut i: usize = 0;
        while i < ID_LENGTH
            invariant
                i <= ID_LENGTH,
                self.bytes@.len() == ID_LENGTH,
                buf@ == old(buf)@ + self@.subrange(0, i as int),
            decreases ID_LENGTH - i,
        {
            buf.push(self.bytes[i]);
            assert(buf@ =~= old(buf)@ + self@.subrange(0, i + 1));
            i = i + 1;
        }
        assert(buf@ =~= old(buf)@ + self@);
    }
}

} // verus!
