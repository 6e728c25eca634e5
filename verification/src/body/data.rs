//! The data body: one length-prefixed opaque payload.

use vstd::prelude::*;

use crate::body::PacketMessage;
use crate::wire::{
    copy_range, lemma_u64_be_round_trip, read_u64_be, spec_u64_from_be_bytes, spec_u64_to_be_bytes,
    write_u64_be,
};
use crate::Error;

verus! {

/// Abstract form of a data body: just its payload bytes.
#[verifier::ext_equal]
pub struct SpecData {
    pub data: Seq<u8>,
}

/// A data body: an opaque payload framed as `len: u64 || bytes[len]`.
///
/// The length prefix is 64 bits wide — wider than the prefixes of the
/// other body kinds — so that large payloads can be carried.
#[derive(Debug, PartialEq, Eq)]
pub struct Data {
    pub data: Vec<u8>,
}

impl View for Data {
    type V = SpecData;

    open spec fn view(&self) -> SpecData {
        SpecData { data: self.data@ }
    }
}

impl Data {
    /// Exact serialized size of this body: the 8-byte length prefix plus
    /// the payload.
    pub fn len(&self) -> (n: usize)
        requires
            Data::spec_encoding(self@).len() <= usize::MAX,
        ensures
            n == Data::spec_encoding(self@).len(),
            n == 8 + self.data@.len(),
    {
        8 + self.data.len()
    }
}

impl PacketMessage for Data {
    open spec fn spec_wf(m: SpecData) -> bool {
        m.data.len() <= u64::MAX
    }

    open spec fn spec_encoding(m: SpecData) -> Seq<u8> {
        spec_u64_to_be_bytes(m.data.len() as u64) + m.data
    }

    open spec fn spec_decoded(s: Seq<u8>) -> Result<SpecData, Error> {
        if s.len() < 8 {
            Err(Error::InsufficientData)
        } else {
            let n = spec_u64_from_be_bytes(s.subrange(0, 8)) as int;
            if s.len() - 8 < n {
                Err(Error::InsufficientData)
            } else {
                Ok(SpecData { data: s.subrange(8, 8 + n) })
            }
        }
    }

    fn encode(self, buf: &mut Vec<u8>) {
        let ghost m = self@;
        write_u64_be(buf, self.data.len() as u64);
        let mut payload = self.data;
        buf.append(&mut payload);
        assert(buf@ =~= old(buf)@ + Self::spec_encoding(m));
    }

    fn decode(buf: &[u8]) -> (message: Result<Self, Error>) {
        if buf.len() < 8 {
            return Err(Error::InsufficientData);
        }
        let n = read_u64_be(buf, 0);
        if ((buf.len() - 8) as u64) < n {
            return Err(Error::InsufficientData);
        }
        let n = n as usize;
        let data = copy_range(buf, 8, 8 + n);
        Ok(Data { data })
    }
}

/// Decoding an encoded data body gives the body back.
pub proof fn lemma_data_round_trip(m: SpecData)
    requires
        Data::spec_wf(m),
    ensures
        Data::spec_decoded(Data::spec_encoding(m)) == Ok::<SpecData, Error>(m),
{
    let s = Data::spec_encoding(m);
    lemma_u64_be_round_trip(m.data.len() as u64);
    assert(s.subrange(0, 8) =~= spec_u64_to_be_bytes(m.data.len() as u64));
    assert(s.subrange(8, 8 + m.data.len() as int) =~= m.data);
    assert(Data::spec_decoded(s) =~~= Ok::<SpecData, Error>(m));
}

/// A strict prefix of an encoded data body is rejected as insufficient.
pub proof fn lemma_data_truncated(m: SpecData, n: int)
    requires
        Data::spec_wf(m),
        0 <= n < Data::spec_encoding(m).len(),
    ensures
        Data::spec_decoded(Data::spec_encoding(m).take(n)) == Err::<SpecData, Error>(
            Error::InsufficientData,
        ),
{
    let s = Data::spec_encoding(m);
    let t = s.take(n);
    if n >= 8 {
        assert(t.subrange(0, 8) =~= s.subrange(0, 8));
        assert(s.subrange(0, 8) =~= spec_u64_to_be_bytes(m.data.len() as u64));
        lemma_u64_be_round_trip(m.data.len() as u64);
    }
}

} // verus!
