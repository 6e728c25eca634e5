//! The peer-to-peer binding body, similar to a STUN bind message.

use vstd::prelude::*;

use crate::body::PacketMessage;
use crate::device::{DeviceId, ID_LENGTH};
use crate::wire::{
    copy_range, lemma_u32_be_round_trip, read_u32_be, spec_u32_from_be_bytes, spec_u32_to_be_bytes,
    write_u32_be,
};
use crate::Error;

verus! {

/// Abstract form of a binding body.
#[verifier::ext_equal]
pub struct SpecBinding {
    pub from: Seq<u8>,
    pub body: Seq<u8>,
    pub signature: Seq<u8>,
}

/// A peer binding probe: the sender's own identifier (raw, no length
/// prefix — its length is a compile-time constant), then an opaque
/// payload and a signature, each framed as `len: u32 || bytes[len]`.
///
/// The embedded sender identifier is distinct from the `from` field of
/// the packet header that carries this body.
#[derive(Debug, PartialEq, Eq)]
pub struct Binding {
    /// The sender's identifier, embedded in the body itself.
    pub from: DeviceId,
    /// Opaque probe payload.
    pub body: Vec<u8>,
    /// Signature over the payload.
    pub signature: Vec<u8>,
}

impl View for Binding {
    type V = SpecBinding;

    open spec fn view(&self) -> SpecBinding {
        SpecBinding { from: self.from@, body: self.body@, signature: self.signature@ }
    }
}

impl Binding {
    /// Exact serialized size of this body: the fixed-length identifier,
    /// the two 4-byte length prefixes, and the two payloads.
    pub fn len(&self) -> (n: usize)
        requires
            Binding::spec_encoding(self@).len() <= usize::MAX,
        ensures
            n == Binding::spec_encoding(self@).len(),
            n == ID_LENGTH + 8 + self.body@.len() + self.signature@.len(),
    {
        proof {
            use_type_invariant(&self.from);
        }
        ID_LENGTH + 2 * 4 + self.body.len() + self.signature.len()
    }
}

impl PacketMessage for Binding {
    open spec fn spec_wf(m: SpecBinding) -> bool {
        m.from.len() == ID_LENGTH && m.body.len() <= u32::MAX && m.signature.len() <= u32::MAX
    }

    open spec fn spec_encoding(m: SpecBinding) -> Seq<u8> {
        m.from + spec_u32_to_be_bytes(m.body.len() as u32) + m.body + spec_u32_to_be_bytes(
            m.signature.len() as u32,
        ) + m.signature
    }

    open spec fn spec_decoded(s: Seq<u8>) -> Result<SpecBinding, Error> {
        if s.len() < ID_LENGTH {
            Err(Error::InsufficientData)
        } else {
            let from = s.subrange(0, ID_LENGTH as int);
            if s.len() - ID_LENGTH < 4 {
                Err(Error::InsufficientData)
            } else {
                let body_len = spec_u32_from_be_bytes(
                    s.subrange(ID_LENGTH as int, ID_LENGTH + 4),
                ) as int;
                if s.len() - ID_LENGTH - 4 < body_len {
                    Err(Error::InsufficientData)
                } else {
                    let body = s.subrange(ID_LENGTH + 4, ID_LENGTH + 4 + body_len);
                    if s.len() - ID_LENGTH - 4 - body_len < 4 {
                        Err(Error::InsufficientData)
                    } else {
                        let sig_len = spec_u32_from_be_bytes(
                            s.subrange(ID_LENGTH + 4 + body_len, ID_LENGTH + 8 + body_len),
                        ) as int;
                        if s.len() - ID_LENGTH - 8 - body_len < sig_len {
                            Err(Error::InsufficientData)
                        } else {
                            Ok(SpecBinding {
                                from,
                                body,
                                signature: s.subrange(
                                    ID_LENGTH + 8 + body_len,
                                    ID_LENGTH + 8 + body_len + sig_len,
                                ),
                            })
                        }
                    }
                }
            }
        }
    }

    fn encode(self, buf: &mut Vec<u8>) {
        let ghost m = self@;
        let Binding { from, body, signature } = self;
        from.write_to(buf);
        write_u32_be(buf, body.len() as u32);
        let mut body = body;
        buf.append(&mut body);
        write_u32_be(buf, signature.len() as u32);
        let mut signature = signature;
        buf.append(&mut signature);
        assert(buf@ =~= old(buf)@ + Self::spec_encoding(m));
    }

    fn decode(buf: &[u8]) -> (message: Result<Self, Error>) {
        if buf.len() < ID_LENGTH {
            return Err(Error::InsufficientData);
        }
        let from = DeviceId::from_bytes(copy_range(buf, 0, ID_LENGTH));
        if buf.len() - ID_LENGTH < 4 {
            return Err(Error::InsufficientData);
        }
        let body_len = read_u32_be(buf, ID_LENGTH) as usize;
        if buf.len() - (ID_LENGTH + 4) < body_len {
            return Err(Error::InsufficientData);
        }
        let body_end = ID_LENGTH + 4 + body_len;
        let body = copy_range(buf, ID_LENGTH + 4, body_end);
        if buf.len() - body_end < 4 {
            return Err(Error::InsufficientData);
        }
        let sig_len = read_u32_be(buf, body_end) as usize;
        if buf.len() - (body_end + 4) < sig_len {
            return Err(Error::InsufficientData);
        }
        let signature = copy_range(buf, body_end + 4, body_end + 4 + sig_len);
        Ok(Binding { from, body, signature })
    }
}

/// Decoding an encoded binding body gives the body back.
pub proof fn lemma_binding_round_trip(m: SpecBinding)
    requires
        Binding::spec_wf(m),
    ensures
        Binding::spec_decoded(Binding::spec_encoding(m)) == Ok::<SpecBinding, Error>(m),
{
    let s = Binding::spec_encoding(m);
    let body_len = m.body.len() as int;
    let sig_len = m.signature.len() as int;
    lemma_u32_be_round_trip(m.body.len() as u32);
    lemma_u32_be_round_trip(m.signature.len() as u32);
    assert(s.subrange(0, ID_LENGTH as int) =~= m.from);
    assert(s.subrange(ID_LENGTH as int, ID_LENGTH + 4) =~= spec_u32_to_be_bytes(
        m.body.len() as u32,
    ));
    assert(s.subrange(ID_LENGTH + 4, ID_LENGTH + 4 + body_len) =~= m.body);
    assert(s.subrange(ID_LENGTH + 4 + body_len, ID_LENGTH + 8 + body_len) =~= spec_u32_to_be_bytes(
        m.signature.len() as u32,
    ));
    assert(s.subrange(ID_LENGTH + 8 + body_len, ID_LENGTH + 8 + body_len + sig_len)
        =~= m.signature);
    assert(Binding::spec_decoded(s) =~~= Ok::<SpecBinding, Error>(m));
}

/// A strict prefix of an encoded binding body is rejected as
/// insufficient.
pub proof fn lemma_binding_truncated(m: SpecBinding, n: int)
    requires
        Binding::spec_wf(m),
        0 <= n < Binding::spec_encoding(m).len(),
    ensures
        Binding::spec_decoded(Binding::spec_encoding(m).take(n)) == Err::<SpecBinding, Error>(
            Error::InsufficientData,
        ),
{
    let s = Binding::spec_encoding(m);
    let t = s.take(n);
    let body_len = m.body.len() as int;
    let sig_len = m.signature.len() as int;
    lemma_u32_be_round_trip(m.body.len() as u32);
    lemma_u32_be_round_trip(m.signature.len() as u32);
    if n >= ID_LENGTH + 4 {
        assert(t.subrange(ID_LENGTH as int, ID_LENGTH + 4) =~= spec_u32_to_be_bytes(
            m.body.len() as u32,
        ));
    }
    if n >= ID_LENGTH + 4 + body_len {
        assert(t.subrange(ID_LENGTH + 4, ID_LENGTH + 4 + body_len) =~= m.body);
    }
    if n >= ID_LENGTH + 8 + body_len {
        assert(t.subrange(ID_LENGTH + 4 + body_len, ID_LENGTH + 8 + body_len)
            =~= spec_u32_to_be_bytes(m.signature.len() as u32));
    }
}

} // verus!
