//! The key exchange body: one step of a handshake.

use vstd::prelude::*;

use crate::body::PacketMessage;
use crate::wire::{
    copy_range, lemma_u32_be_round_trip, read_u32_be, spec_u32_from_be_bytes, spec_u32_to_be_bytes,
    write_u32_be,
};
use crate::Error;
use vstd::slice::slice_index_get;

verus! {

/// Marks a key exchange message as a request.
pub const KEY_EXCHANGE_REQUEST: u8 = 0x01;

/// Marks a key exchange message as a reply.
pub const KEY_EXCHANGE_REPLY: u8 = 0x02;

/// Abstract form of a key exchange body.
#[verifier::ext_equal]
pub struct SpecKeyExchange {
    pub typ: u8,
    pub public_key: Seq<u8>,
    pub signature: Seq<u8>,
}

/// A key exchange body: a discriminator byte telling request from
/// reply, then the public key and the signature, each framed as
/// `len: u32 || bytes[len]`.
#[derive(Debug, PartialEq, Eq)]
pub struct KeyExchange {
    /// Type of the message: request or reply.
    pub typ: u8,
    /// Public key for the key exchange.
    pub public_key: Vec<u8>,
    /// Signature over the exchange, made by the identity component.
    pub signature: Vec<u8>,
}

impl View for KeyExchange {
    type V = SpecKeyExchange;

    open spec fn view(&self) -> SpecKeyExchange {
        SpecKeyExchange { typ: self.typ, public_key: self.public_key@, signature: self.signature@ }
    }
}

impl KeyExchange {
    /// Exact serialized size of this body: the discriminator byte, the
    /// two 4-byte length prefixes, and the two payloads.
    pub fn len(&self) -> (n: usize)
        requires
            KeyExchange::spec_encoding(self@).len() <= usize::MAX,
        ensures
            n == KeyExchange::spec_encoding(self@).len(),
            n == 9 + self.public_key@.len() + self.signature@.len(),
    {
        1 + 2 * 4 + self.public_key.len() + self.signature.len()
    }
}

impl PacketMessage for KeyExchange {
    open spec fn spec_wf(m: SpecKeyExchange) -> bool {
        m.public_key.len() <= u32::MAX && m.signature.len() <= u32::MAX
    }

    open spec fn spec_encoding(m: SpecKeyExchange) -> Seq<u8> {
        seq![m.typ] + spec_u32_to_be_bytes(m.public_key.len() as u32) + m.public_key
            + spec_u32_to_be_bytes(m.signature.len() as u32) + m.signature
    }

    open spec fn spec_decoded(s: Seq<u8>) -> Result<SpecKeyExchange, Error> {
        if s.len() < 1 {
            Err(Error::InsufficientData)
        } else {
            let typ = s[0];
            if s.len() - 1 < 4 {
                Err(Error::InsufficientData)
            } else {
                let pk_len = spec_u32_from_be_bytes(s.subrange(1, 5)) as int;
                if s.len() - 5 < pk_len {
                    Err(Error::InsufficientData)
                } else {
                    let public_key = s.subrange(5, 5 + pk_len);
                    if s.len() - 5 - pk_len < 4 {
                        Err(Error::InsufficientData)
                    } else {
                        let sig_len = spec_u32_from_be_bytes(
                            s.subrange(5 + pk_len, 9 + pk_len),
                        ) as int;
                        if s.len() - 9 - pk_len < sig_len {
                            Err(Error::InsufficientData)
                        } else {
                            Ok(SpecKeyExchange {
                                typ,
                                public_key,
                                signature: s.subrange(9 + pk_len, 9 + pk_len + sig_len),
                            })
                        }
                    }
                }
            }
        }
    }

    fn encode(self, buf: &mut Vec<u8>) {
        let ghost m = self@;
        let KeyExchange { typ, public_key, signature } = self;
        buf.push(typ);
        write_u32_be(buf, public_key.len() as u32);
        let mut public_key = public_key;
        buf.append(&mut public_key);
        write_u32_be(buf, signature.len() as u32);
        let mut signature = signature;
        buf.append(&mut signature);
        assert(buf@ =~= old(buf)@ + Self::spec_encoding(m));
    }

    fn decode(buf: &[u8]) -> (message: Result<Self, Error>) {
        if buf.len() < 1 {
            return Err(Error::InsufficientData);
        }
        let typ = *slice_index_get(buf, 0);
        if buf.len() - 1 < 4 {
            return Err(Error::InsufficientData);
        }
        let pk_len = read_u32_be(buf, 1) as usize;
        if buf.len() - 5 < pk_len {
            return Err(Error::InsufficientData);
        }
        let pk_end = 5 + pk_len;
        let public_key = copy_range(buf, 5, pk_end);
        if buf.len() - pk_end < 4 {
            return Err(Error::InsufficientData);
        }
        let sig_len = read_u32_be(buf, pk_end) as usize;
        if buf.len() - (pk_end + 4) < sig_len {
            return Err(Error::InsufficientData);
        }
        let signature = copy_range(buf, pk_end + 4, pk_end + 4 + sig_len);
        Ok(KeyExchange { typ, public_key, signature })
    }
}

/// Decoding an encoded key exchange body gives the body back.
pub proof fn lemma_key_exchange_round_trip(m: SpecKeyExchange)
    requires
        KeyExchange::spec_wf(m),
    ensures
        KeyExchange::spec_decoded(KeyExchange::spec_encoding(m)) == Ok::<SpecKeyExchange, Error>(m),
{
    let s = KeyExchange::spec_encoding(m);
    let pk_len = m.public_key.len() as int;
    let sig_len = m.signature.len() as int;
    lemma_u32_be_round_trip(m.public_key.len() as u32);
    lemma_u32_be_round_trip(m.signature.len() as u32);
    assert(s.subrange(1, 5) =~= spec_u32_to_be_bytes(m.public_key.len() as u32));
    assert(s.subrange(5, 5 + pk_len) =~= m.public_key);
    assert(s.subrange(5 + pk_len, 9 + pk_len) =~= spec_u32_to_be_bytes(m.signature.len() as u32));
    assert(s.subrange(9 + pk_len, 9 + pk_len + sig_len) =~= m.signature);
    assert(KeyExchange::spec_decoded(s) =~~= Ok::<SpecKeyExchange, Error>(m));
}

/// A strict prefix of an encoded key exchange body is rejected as
/// insufficient.
pub proof fn lemma_key_exchange_truncated(m: SpecKeyExchange, n: int)
    requires
        KeyExchange::spec_wf(m),
        0 <= n < KeyExchange::spec_encoding(m).len(),
    ensures
        KeyExchange::spec_decoded(KeyExchange::spec_encoding(m).take(n)) == Err::<
            SpecKeyExchange,
            Error,
        >(Error::InsufficientData),
{
    let s = KeyExchange::spec_encoding(m);
    let t = s.take(n);
    let pk_len = m.public_key.len() as int;
    let sig_len = m.signature.len() as int;
    lemma_u32_be_round_trip(m.public_key.len() as u32);
    lemma_u32_be_round_trip(m.signature.len() as u32);
    if n >= 5 {
        assert(t.subrange(1, 5) =~= spec_u32_to_be_bytes(m.public_key.len() as u32));
    }
    if n >= 5 + pk_len {
        assert(t.subrange(5, 5 + pk_len) =~= m.public_key);
    }
    if n >= 9 + pk_len {
        assert(t.subrange(5 + pk_len, 9 + pk_len) =~= spec_u32_to_be_bytes(
            m.signature.len() as u32,
        ));
    }
}

} // verus!
