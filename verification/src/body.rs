//! Packet bodies and their codecs.

use vstd::prelude::*;

use crate::Error;

mod data;
mod key_exchange;
mod p2p;

pub use data::{lemma_data_round_trip, lemma_data_truncated, Data, SpecData};
pub use key_exchange::{
    lemma_key_exchange_round_trip, lemma_key_exchange_truncated, KeyExchange, SpecKeyExchange,
    KEY_EXCHANGE_REPLY, KEY_EXCHANGE_REQUEST,
};
pub use p2p::{lemma_binding_round_trip, lemma_binding_truncated, Binding, SpecBinding};

verus! {

/// Encode and decode one kind of RingLink message.
///
/// `spec_encoding` gives the exact byte image of an abstract value and
/// `spec_decoded` the value a byte sequence parses to. Decoding is
/// deterministic and total: a buffer either parses to exactly one value
/// or is rejected with a typed error, and the executable codecs return
/// precisely what the specification functions say.
pub trait PacketMessage: View + Sized {
    /// The abstract values whose byte image is well formed: every
    /// variable-length field fits its length prefix.
    spec fn spec_wf(m: Self::V) -> bool;

    /// The exact serialized bytes of an abstract value.
    spec fn spec_encoding(m: Self::V) -> Seq<u8>;

    /// What a byte sequence decodes to: the value read from its prefix,
    /// or the error the attempt is rejected with. Trailing bytes after a
    /// complete value are ignored by this layer, not rejected.
    spec fn spec_decoded(s: Seq<u8>) -> Result<Self::V, Error>;

    /// Append the serialized bytes of `self` to `buf`.
    fn encode(self, buf: &mut Vec<u8>)
        requires
            Self::spec_wf(self@),
            old(buf)@.len() + Self::spec_encoding(self@).len() <= usize::MAX,
        ensures
            final(buf)@ == old(buf)@ + Self::spec_encoding(self@),
    ;

    /// Parse one value from the start of `buf`.
    fn decode(buf: &[u8]) -> (message: Result<Self, Error>)
        ensures
            match message {
                Ok(v) => Self::spec_decoded(buf@) == Ok::<Self::V, Error>(v@)
                    && Self::spec_wf(v@),
                Err(e) => Self::spec_decoded(buf@) == Err::<Self::V, Error>(e),
            },
    ;
}

} // verus!
