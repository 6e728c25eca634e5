//! Wire format of RingLink packets.
//!
//! A packet is a fixed-layout header followed by a kind-tagged,
//! variable-length body. Encoding flattens a packet into a contiguous
//! byte buffer in a fixed field order; decoding reads the header,
//! resolves the kind byte through the closed registry, and dispatches
//! to the matching body codec. Malformed input is rejected with a typed
//! error, never a panic.

pub mod body;
pub mod buffer;
pub mod device;
mod error;
pub mod wire;

pub use body::PacketMessage;
pub use error::Error;

use body::{
    lemma_binding_round_trip, lemma_binding_truncated, lemma_data_round_trip, lemma_data_truncated,
    lemma_key_exchange_round_trip, lemma_key_exchange_truncated, Binding, Data, KeyExchange,
    SpecBinding, SpecData, SpecKeyExchange,
};
use buffer::{bytes_as_slice, bytes_mut_from_vec, spec_bytes, spec_bytes_mut};
use device::{DeviceId, ID_LENGTH};
use vstd::prelude::*;
use vstd::slice::{slice_index_get, slice_subrange};
use wire::{
    copy_range, lemma_u32_be_round_trip, lemma_u64_be_round_trip, read_u32_be, read_u64_be,
    spec_u32_from_be_bytes, spec_u32_to_be_bytes, spec_u64_from_be_bytes, spec_u64_to_be_bytes,
    write_u32_be, write_u64_be,
};

verus! {

/// Default time-to-live of a freshly built packet: the largest value
/// representable in the three TTL bits.
pub const DEFAULT_TTL: u8 = 0b111;

/// The time-to-live packed into the top three bits of a packet id.
pub open spec fn spec_ttl(packet_id: u64) -> u8 {
    ((packet_id >> 61) & 0x7) as u8
}

/// The sequence portion of a packet id: its low 61 bits.
pub open spec fn spec_sequence(packet_id: u64) -> u64 {
    packet_id & 0x1fff_ffff_ffff_ffff
}

/// The kinds of packet bodies, a closed registry: exactly these three
/// wire bytes are recognised, anything else is a decode error.
#[derive(Copy, Clone, Debug, PartialEq, Eq, Structural)]
pub enum PacketKind {
    /// Main data packet.
    Data,
    /// Key exchange packet.
    KeyExchange,
    /// Peer-to-peer binding probe.
    P2P,
}

impl PacketKind {
    /// The wire byte this kind is written as.
    pub open spec fn spec_byte(self) -> u8 {
        match self {
            PacketKind::Data => 0x01,
            PacketKind::KeyExchange => 0x10,
            PacketKind::P2P => 0x06,
        }
    }

    /// The kind a wire byte resolves to; bytes outside the registry are
    /// rejected, never coerced.
    pub open spec fn spec_from_byte(value: u8) -> Result<PacketKind, Error> {
        if value == 0x01 {
            Ok(PacketKind::Data)
        } else if value == 0x10 {
            Ok(PacketKind::KeyExchange)
        } else if value == 0x06 {
            Ok(PacketKind::P2P)
        } else {
            Err(Error::UnknownKind)
        }
    }

    /// The wire byte this kind is written as.
    pub fn wire_byte(&self) -> (value: u8)
        ensures
            value == self.spec_byte(),
    {
        match self {
            PacketKind::Data => 0x01,
            PacketKind::KeyExchange => 0x10,
            PacketKind::P2P => 0x06,
        }
    }

    /// Resolve a wire byte through the registry.
    pub fn try_from(value: u8) -> (kind: Result<PacketKind, Error>)
        ensures
            kind == PacketKind::spec_from_byte(value),
    {
        match value {
            0x01 => Ok(PacketKind::Data),
            0x10 => Ok(PacketKind::KeyExchange),
            0x06 => Ok(PacketKind::P2P),
            _ => Err(Error::UnknownKind),
        }
    }
}

/// Capability and metadata bits of a packet, transported as a 32-bit
/// field. Every bit is currently reserved, so any 32-bit pattern is a
/// valid flag set and none of the bits are individually named.
#[derive(Copy, Clone, Debug, PartialEq, Eq, Structural)]
pub struct PacketFlags {
    /// The raw 32-bit pattern.
    pub bits: u32,
}

impl PacketFlags {
    /// The empty flag set.
    pub fn empty() -> (flags: PacketFlags)
        ensures
            flags.bits == 0,
    {
        PacketFlags { bits: 0 }
    }

    /// The raw 32-bit pattern.
    pub fn bits(&self) -> (bits: u32)
        ensures
            bits == self.bits,
    {
        self.bits
    }

    /// The flag set with exactly the given pattern; as every bit is
    /// defined, no bit of the input is dropped.
    pub fn from_bits(bits: u32) -> (flags: PacketFlags)
        ensures
            flags.bits == bits,
    {
        PacketFlags { bits }
    }
}

/// Source of sequence values for newly built packets.
///
/// One generator stands for the process-wide counter: each call to
/// `next` hands out the current counter value and advances it by one,
/// wrapping silently at the end of the 64-bit range. Values therefore
/// repeat only after the counter wraps; no gap detection and no
/// persistence across restarts is provided.
pub struct SequenceGenerator {
    counter: u64,
}

impl View for SequenceGenerator {
    type V = u64;

    closed spec fn view(&self) -> u64 {
        self.counter
    }
}

impl SequenceGenerator {
    /// A fresh generator, counting from zero.
    pub fn new() -> (generator: SequenceGenerator)
        ensures
            generator@ == 0,
    {
        SequenceGenerator { counter: 0 }
    }

    /// Hand out the next sequence value.
    pub fn next(&mut self) -> (sequence: u64)
        ensures
            sequence == old(self)@,
            final(self)@ == if old(self)@ == u64::MAX {
                0u64
            } else {
                (old(self)@ + 1) as u64
            },
    {
        let sequence = self.counter;
        self.counter = self.counter.wrapping_add(1);
        sequence
    }
}

/// Fixed byte length of the packet header: id, kind byte, the two
/// addresses, and the flags field.
pub open spec fn spec_header_length() -> int {
    8 + 1 + 2 * (ID_LENGTH as int) + 4
}

/// Abstract form of a packet header.
#[verifier::ext_equal]
pub struct SpecPacketHeader {
    pub packet_id: u64,
    pub kind: PacketKind,
    pub from: Seq<u8>,
    pub to: Seq<u8>,
    pub flags: PacketFlags,
}

impl SpecPacketHeader {
    /// Both addresses have the fixed identifier length.
    pub open spec fn wf(self) -> bool {
        self.from.len() == ID_LENGTH && self.to.len() == ID_LENGTH
    }

    /// The fixed-size preamble in wire order.
    pub open spec fn spec_encoding(self) -> Seq<u8> {
        spec_u64_to_be_bytes(self.packet_id) + seq![self.kind.spec_byte()] + self.from + self.to
            + spec_u32_to_be_bytes(self.flags.bits)
    }
}

/// Abstract form of a packet body.
#[verifier::ext_equal]
pub enum SpecPacketBody {
    Data(SpecData),
    KeyExchange(SpecKeyExchange),
    P2P(SpecBinding),
}

impl SpecPacketBody {
    /// The kind implied by the body variant; the variant is authoritative.
    pub open spec fn kind(self) -> PacketKind {
        match self {
            SpecPacketBody::Data(_) => PacketKind::Data,
            SpecPacketBody::KeyExchange(_) => PacketKind::KeyExchange,
            SpecPacketBody::P2P(_) => PacketKind::P2P,
        }
    }

    pub open spec fn wf(self) -> bool {
        match self {
            SpecPacketBody::Data(m) => Data::spec_wf(m),
            SpecPacketBody::KeyExchange(m) => KeyExchange::spec_wf(m),
            SpecPacketBody::P2P(m) => Binding::spec_wf(m),
        }
    }

    pub open spec fn spec_encoding(self) -> Seq<u8> {
        match self {
            SpecPacketBody::Data(m) => Data::spec_encoding(m),
            SpecPacketBody::KeyExchange(m) => KeyExchange::spec_encoding(m),
            SpecPacketBody::P2P(m) => Binding::spec_encoding(m),
        }
    }

    /// Decode a body of the given kind. The tag is implied by the
    /// header's kind and is not re-validated here.
    pub open spec fn spec_decoded(kind: PacketKind, s: Seq<u8>) -> Result<SpecPacketBody, Error> {
        match kind {
            PacketKind::Data => match Data::spec_decoded(s) {
                Ok(m) => Ok(SpecPacketBody::Data(m)),
                Err(e) => Err(e),
            },
            PacketKind::KeyExchange => match KeyExchange::spec_decoded(s) {
                Ok(m) => Ok(SpecPacketBody::KeyExchange(m)),
                Err(e) => Err(e),
            },
            PacketKind::P2P => match Binding::spec_decoded(s) {
                Ok(m) => Ok(SpecPacketBody::P2P(m)),
                Err(e) => Err(e),
            },
        }
    }
}

/// Abstract form of a full packet.
#[verifier::ext_equal]
pub struct SpecPacket {
    pub header: SpecPacketHeader,
    pub body: SpecPacketBody,
}

impl SpecPacket {
    /// Valid packets: well-formed header and body, a header kind that
    /// agrees with the body variant, and a byte image that fits a buffer.
    pub open spec fn wf(self) -> bool {
        self.header.wf() && self.body.wf() && self.header.kind == self.body.kind()
            && self.spec_encoding().len() <= usize::MAX
    }

    /// The packet's exact byte image: header, then body.
    pub open spec fn spec_encoding(self) -> Seq<u8> {
        self.header.spec_encoding() + self.body.spec_encoding()
    }

    /// What a byte sequence decodes to. The header length is checked
    /// before any header field is consumed; an unregistered kind byte
    /// aborts decoding before any body byte is touched; trailing bytes
    /// after the body are not inspected.
    pub open spec fn spec_decoded(s: Seq<u8>) -> Result<SpecPacket, Error> {
        if s.len() < spec_header_length() {
            Err(Error::InsufficientData)
        } else {
            match PacketKind::spec_from_byte(s[8]) {
                Err(e) => Err(e),
                Ok(kind) => match SpecPacketBody::spec_decoded(kind, s.skip(spec_header_length())) {
                    Err(e) => Err(e),
                    Ok(body) => Ok(SpecPacket {
                        header: SpecPacketHeader {
                            packet_id: spec_u64_from_be_bytes(s.subrange(0, 8)),
                            kind,
                            from: s.subrange(9, 9 + ID_LENGTH as int),
                            to: s.subrange(9 + ID_LENGTH as int, 9 + 2 * (ID_LENGTH as int)),
                            flags: PacketFlags {
                                bits: spec_u32_from_be_bytes(
                                    s.subrange(
                                        9 + 2 * (ID_LENGTH as int),
                                        13 + 2 * (ID_LENGTH as int),
                                    ),
                                ),
                            },
                        },
                        body,
                    }),
                },
            }
        }
    }
}

/// The fixed-layout packet preamble.
#[derive(Debug, PartialEq, Eq)]
pub struct PacketHeader {
    /// 3-bit TTL packed above the 61-bit sequence value.
    pub packet_id: u64,
    /// Kind of the carried body.
    pub kind: PacketKind,
    /// Source device.
    pub from: DeviceId,
    /// Destination device.
    pub to: DeviceId,
    /// Packet flags.
    pub flags: PacketFlags,
}

impl View for PacketHeader {
    type V = SpecPacketHeader;

    open spec fn view(&self) -> SpecPacketHeader {
        SpecPacketHeader {
            packet_id: self.packet_id,
            kind: self.kind,
            from: self.from@,
            to: self.to@,
            flags: self.flags,
        }
    }
}

impl PacketHeader {
    /// Fixed byte length of a packet header.
    pub fn len() -> (n: usize)
        ensures
            n == spec_header_length(),
    {
        8 + 1 + 2 * ID_LENGTH + 4
    }

    /// The packet's time-to-live: the top three bits of its id. Purely
    /// informational at this layer; decrement and expiry are transport
    /// concerns.
    pub fn ttl(&self) -> (ttl: u8)
        ensures
            ttl == spec_ttl(self.packet_id),
    {
        ((self.packet_id >> 61) & 0b111) as u8
    }
}

/// Packet body: the tagged union over the three body variants.
#[derive(Debug, PartialEq, Eq)]
pub enum PacketBody {
    Data(Data),
    KeyExchange(KeyExchange),
    P2P(Binding),
}

impl View for PacketBody {
    type V = SpecPacketBody;

    open spec fn view(&self) -> SpecPacketBody {
        match self {
            PacketBody::Data(b) => SpecPacketBody::Data(b@),
            PacketBody::KeyExchange(b) => SpecPacketBody::KeyExchange(b@),
            PacketBody::P2P(b) => SpecPacketBody::P2P(b@),
        }
    }
}

impl PacketBody {
    /// Exact serialized size of the body.
    pub fn len(&self) -> (n: usize)
        requires
            self@.spec_encoding().len() <= usize::MAX,
        ensures
            n == self@.spec_encoding().len(),
    {
        match self {
            PacketBody::Data(data) => data.len(),
            PacketBody::KeyExchange(kex) => kex.len(),
            PacketBody::P2P(binding) => binding.len(),
        }
    }
}

/// A full packet: header and body.
#[derive(Debug, PartialEq, Eq)]
pub struct Packet {
    pub header: PacketHeader,
    pub body: PacketBody,
}

impl View for Packet {
    type V = SpecPacket;

    open spec fn view(&self) -> SpecPacket {
        SpecPacket { header: self.header@, body: self.body@ }
    }
}

impl Packet {
    /// Build a packet around `body`, addressed `from` → `to`.
    ///
    /// The packet id combines the generator's next sequence value with
    /// the default TTL in the top three bits; the kind is derived from
    /// the body variant and the flags start empty.
    pub fn new(
        sequence: &mut SequenceGenerator,
        from: DeviceId,
        to: DeviceId,
        body: PacketBody,
    ) -> (packet: Packet)
        ensures
            packet.header.packet_id == old(sequence)@ | ((DEFAULT_TTL as u64) << 61),
            spec_ttl(packet.header.packet_id) == DEFAULT_TTL,
            spec_sequence(packet.header.packet_id) == spec_sequence(old(sequence)@),
            packet.header.kind == body@.kind(),
            packet.header.from == from,
            packet.header.to == to,
            packet.header.flags.bits == 0,
            packet.body == body,
            final(sequence)@ == if old(sequence)@ == u64::MAX {
                0u64
            } else {
                (old(sequence)@ + 1) as u64
            },
            packet@.header.wf(),
            body@.wf() && packet@.spec_encoding().len() <= usize::MAX ==> packet@.wf(),
    {
        let value = sequence.next();
        let packet_id = value | ((DEFAULT_TTL as u64) << 61);
        proof {
            assert(spec_ttl(packet_id) == DEFAULT_TTL && spec_sequence(packet_id)
                == spec_sequence(value)) by (bit_vector)
                requires
                    packet_id == value | ((DEFAULT_TTL as u64) << 61),
            ;
        }
        Self::with_id(packet_id, from, to, body)
    }

    /// Build a packet around `body` with a caller-supplied id, taken
    /// verbatim: the caller owns the full bit layout of the id, the TTL
    /// bits included. This is the entry point for retransmitting or
    /// forwarding a packet that must keep its own id and TTL.
    pub fn with_id(id: u64, from: DeviceId, to: DeviceId, body: PacketBody) -> (packet: Packet)
        ensures
            packet.header.packet_id == id,
            packet.header.kind == body@.kind(),
            packet.header.from == from,
            packet.header.to == to,
            packet.header.flags.bits == 0,
            packet.body == body,
            packet@.header.wf(),
            body@.wf() && packet@.spec_encoding().len() <= usize::MAX ==> packet@.wf(),
    {
        proof {
            use_type_invariant(&from);
            use_type_invariant(&to);
        }
        let kind = match &body {
            PacketBody::Data(_) => PacketKind::Data,
            PacketBody::KeyExchange(_) => PacketKind::KeyExchange,
            PacketBody::P2P(_) => PacketKind::P2P,
        };
        Packet {
            header: PacketHeader { packet_id: id, kind, from, to, flags: PacketFlags::empty() },
            body,
        }
    }

    /// Total serialized length of the packet: header plus body.
    pub fn len(&self) -> (n: usize)
        requires
            self@.spec_encoding().len() <= usize::MAX,
        ensures
            n == self@.spec_encoding().len(),
    {
        proof {
            use_type_invariant(&self.header.from);
            use_type_invariant(&self.header.to);
        }
        PacketHeader::len() + self.body.len()
    }

    /// Encode the packet into a growable buffer from the `bytes` crate,
    /// sized exactly to the packet's computed length.
    pub fn encode_into_bytes(self) -> (buffer: bytes::BytesMut)
        requires
            self@.wf(),
        ensures
            spec_bytes_mut(buffer) == self@.spec_encoding(),
    {
        let mut buf = Vec::with_capacity(self.len());
        self.encode(&mut buf);
        bytes_mut_from_vec(&buf)
    }

    /// Decode a packet from a buffer of the `bytes` crate.
    pub fn decode_bytes(buf: &bytes::Bytes) -> (packet: Result<Packet, Error>)
        ensures
            match packet {
                Ok(p) => SpecPacket::spec_decoded(spec_bytes(*buf)) == Ok::<SpecPacket, Error>(p@)
                    && p@.wf(),
                Err(e) => SpecPacket::spec_decoded(spec_bytes(*buf)) == Err::<SpecPacket, Error>(
                    e,
                ),
            },
    {
        Packet::decode(bytes_as_slice(buf))
    }
}

impl PacketMessage for Packet {
    open spec fn spec_wf(m: SpecPacket) -> bool {
        m.wf()
    }

    open spec fn spec_encoding(m: SpecPacket) -> Seq<u8> {
        m.spec_encoding()
    }

    open spec fn spec_decoded(s: Seq<u8>) -> Result<SpecPacket, Error> {
        SpecPacket::spec_decoded(s)
    }

    fn encode(self, buf: &mut Vec<u8>) {
        let ghost m = self@;
        proof {
            use_type_invariant(&self.header.from);
            use_type_invariant(&self.header.to);
        }
        let Packet { header, body } = self;
        let PacketHeader { packet_id, kind, from, to, flags } = header;
        write_u64_be(buf, packet_id);
        buf.push(kind.wire_byte());
        from.write_to(buf);
        to.write_to(buf);
        write_u32_be(buf, flags.bits);
        assert(buf@ =~= old(buf)@ + m.header.spec_encoding());
        match body {
            PacketBody::Data(b) => b.encode(buf),
            PacketBody::KeyExchange(b) => b.encode(buf),
            PacketBody::P2P(b) => b.encode(buf),
        }
        assert(buf@ =~= old(buf)@ + Self::spec_encoding(m));
    }

    fn decode(buf: &[u8]) -> (message: Result<Self, Error>) {
        if buf.len() < PacketHeader::len() {
            return Err(Error::InsufficientData);
        }
        let packet_id = read_u64_be(buf, 0);
        let kind_byte = *slice_index_get(buf, 8);
        let kind = match PacketKind::try_from(kind_byte) {
            Ok(kind) => kind,
            Err(e) => return Err(e),
        };
        let from = DeviceId::from_bytes(copy_range(buf, 9, 9 + ID_LENGTH));
        let to = DeviceId::from_bytes(copy_range(buf, 9 + ID_LENGTH, 9 + 2 * ID_LENGTH));
        let flags = PacketFlags::from_bits(read_u32_be(buf, 9 + 2 * ID_LENGTH));
        let tail = slice_subrange(buf, PacketHeader::len(), buf.len());
        assert(tail@ =~= buf@.skip(spec_header_length()));
        let body = match kind {
            PacketKind::Data => match Data::decode(tail) {
                Ok(b) => PacketBody::Data(b),
                Err(e) => return Err(e),
            },
            PacketKind::KeyExchange => match KeyExchange::decode(tail) {
                Ok(b) => PacketBody::KeyExchange(b),
                Err(e) => return Err(e),
            },
            PacketKind::P2P => match Binding::decode(tail) {
                Ok(b) => PacketBody::P2P(b),
                Err(e) => return Err(e),
            },
        };
        let packet = Packet {
            header: PacketHeader { packet_id, kind, from, to, flags },
            body,
        };
        proof {
            assert(SpecPacket::spec_decoded(buf@) =~~= Ok::<SpecPacket, Error>(packet@));
        }
        Ok(packet)
    }
}

/// Where each header field lies inside an encoded packet.
proof fn lemma_packet_encoding_fields(m: SpecPacket)
    requires
        m.header.wf(),
    ensures
        m.spec_encoding().len() == spec_header_length() + m.body.spec_encoding().len(),
        m.spec_encoding()[8] == m.header.kind.spec_byte(),
        m.spec_encoding().subrange(0, 8) == spec_u64_to_be_bytes(m.header.packet_id),
        m.spec_encoding().subrange(9, 9 + ID_LENGTH as int) == m.header.from,
        m.spec_encoding().subrange(9 + ID_LENGTH as int, 9 + 2 * (ID_LENGTH as int))
            == m.header.to,
        m.spec_encoding().subrange(9 + 2 * (ID_LENGTH as int), 13 + 2 * (ID_LENGTH as int))
            == spec_u32_to_be_bytes(m.header.flags.bits),
        m.spec_encoding().skip(spec_header_length()) == m.body.spec_encoding(),
{
    let s = m.spec_encoding();
    assert(s.subrange(0, 8) =~= spec_u64_to_be_bytes(m.header.packet_id));
    assert(s.subrange(9, 9 + ID_LENGTH as int) =~= m.header.from);
    assert(s.subrange(9 + ID_LENGTH as int, 9 + 2 * (ID_LENGTH as int)) =~= m.header.to);
    assert(s.subrange(9 + 2 * (ID_LENGTH as int), 13 + 2 * (ID_LENGTH as int))
        =~= spec_u32_to_be_bytes(m.header.flags.bits));
    assert(s.skip(spec_header_length()) =~= m.body.spec_encoding());
}

/// Round-trip identity: decoding the encoding of any well-formed packet
/// gives the packet back, field for field.
pub proof fn lemma_packet_round_trip(m: SpecPacket)
    requires
        m.wf(),
    ensures
        SpecPacket::spec_decoded(m.spec_encoding()) == Ok::<SpecPacket, Error>(m),
{
    let s = m.spec_encoding();
    lemma_packet_encoding_fields(m);
    lemma_u64_be_round_trip(m.header.packet_id);
    lemma_u32_be_round_trip(m.header.flags.bits);
    assert(PacketKind::spec_from_byte(m.header.kind.spec_byte()) == Ok::<PacketKind, Error>(
        m.header.kind,
    ));
    match m.body {
        SpecPacketBody::Data(b) => lemma_data_round_trip(b),
        SpecPacketBody::KeyExchange(b) => lemma_key_exchange_round_trip(b),
        SpecPacketBody::P2P(b) => lemma_binding_round_trip(b),
    }
    assert(SpecPacket::spec_decoded(s) =~~= Ok::<SpecPacket, Error>(m));
}

/// Truncation safety: any strict prefix of a packet's encoding is
/// rejected as insufficient data — never with a different error and
/// never with a silently wrong result.
pub proof fn lemma_packet_truncated(m: SpecPacket, n: int)
    requires
        m.wf(),
        0 <= n < m.spec_encoding().len(),
    ensures
        SpecPacket::spec_decoded(m.spec_encoding().take(n)) == Err::<SpecPacket, Error>(
            Error::InsufficientData,
        ),
{
    let s = m.spec_encoding();
    let t = s.take(n);
    lemma_packet_encoding_fields(m);
    if n >= spec_header_length() {
        assert(t[8] == s[8]);
        assert(PacketKind::spec_from_byte(m.header.kind.spec_byte()) == Ok::<PacketKind, Error>(
            m.header.kind,
        ));
        let rest = n - spec_header_length();
        assert(t.skip(spec_header_length()) =~= m.body.spec_encoding().take(rest));
        match m.body {
            SpecPacketBody::Data(b) => lemma_data_truncated(b, rest),
            SpecPacketBody::KeyExchange(b) => lemma_key_exchange_truncated(b, rest),
            SpecPacketBody::P2P(b) => lemma_binding_truncated(b, rest),
        }
    }
}

/// Closed registry: a buffer that is long enough for a header but whose
/// kind byte is none of the registered codes is rejected as an unknown
/// kind, whatever the rest of the buffer holds.
pub proof fn lemma_packet_unknown_kind(s: Seq<u8>)
    requires
        s.len() >= spec_header_length(),
        s[8] != 0x01 && s[8] != 0x10 && s[8] != 0x06,
    ensures
        SpecPacket::spec_decoded(s) == Err::<SpecPacket, Error>(Error::UnknownKind),
{
}

/// Distinctness of sequence values: the i-th and the j-th value handed
/// out by one generator differ modulo 2^61 — the packet sequence space —
/// as long as fewer than 2^61 draws lie between them. Together with the
/// id layout ensured by `Packet::new`, packets built from one generator
/// carry pairwise distinct sequence values until the counter wraps.
pub proof fn lemma_sequence_values_distinct(start: u64, i: u64, j: u64)
    requires
        i < j,
        j - i < 0x2000_0000_0000_0000,
    ensures
        spec_sequence((start + i) as u64) != spec_sequence((start + j) as u64),
{
    assert(((start + i) as u64) & 0x1fff_ffff_ffff_ffff != ((start + j) as u64)
        & 0x1fff_ffff_ffff_ffff) by (bit_vector)
        requires
            i < j,
            j - i < 0x2000_0000_0000_0000,
    ;
}

} // verus!
