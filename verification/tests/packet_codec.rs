//! End-to-end tests of the packet codec: round trips, truncation,
//! kind registry, id layout, and lengths.

use bytes::Bytes;
use ringlink_protocol::body::{
    Binding, Data, KeyExchange, KEY_EXCHANGE_REPLY, KEY_EXCHANGE_REQUEST,
};
use ringlink_protocol::device::{DeviceId, ID_LENGTH};
use ringlink_protocol::{
    Error, Packet, PacketBody, PacketFlags, PacketHeader, PacketKind, PacketMessage,
    SequenceGenerator, DEFAULT_TTL,
};

fn device(byte: u8) -> DeviceId {
    DeviceId::from_bytes(vec![byte; ID_LENGTH])
}

fn encode_packet(packet: Packet) -> Vec<u8> {
    let mut buf = Vec::new();
    packet.encode(&mut buf);
    buf
}

fn data_packet(id: u64, payload: &[u8]) -> Packet {
    Packet::with_id(
        id,
        device(1),
        device(2),
        PacketBody::Data(Data { data: payload.to_vec() }),
    )
}

#[test]
fn header_len_is_fixed() {
    assert_eq!(PacketHeader::len(), 8 + 1 + 2 * ID_LENGTH + 4);
    assert_eq!(PacketHeader::len(), 45);
}

#[test]
fn data_round_trip() {
    let encoded = encode_packet(data_packet(42, b"hello"));
    let decoded = Packet::decode(&encoded).unwrap();
    assert_eq!(decoded, data_packet(42, b"hello"));
}

#[test]
fn key_exchange_round_trip() {
    let build = || {
        Packet::with_id(
            7,
            device(3),
            device(4),
            PacketBody::KeyExchange(KeyExchange {
                typ: KEY_EXCHANGE_REQUEST,
                public_key: vec![0xaa; 32],
                signature: vec![0xbb; 64],
            }),
        )
    };
    let encoded = encode_packet(build());
    let decoded = Packet::decode(&encoded).unwrap();
    assert_eq!(decoded, build());
}

#[test]
fn key_exchange_reply_typ_is_kept() {
    let build = || {
        Packet::with_id(
            8,
            device(3),
            device(4),
            PacketBody::KeyExchange(KeyExchange {
                typ: KEY_EXCHANGE_REPLY,
                public_key: vec![1, 2, 3],
                signature: Vec::new(),
            }),
        )
    };
    let encoded = encode_packet(build());
    match Packet::decode(&encoded).unwrap().body {
        PacketBody::KeyExchange(kex) => assert_eq!(kex.typ, KEY_EXCHANGE_REPLY),
        _ => panic!("wrong body variant"),
    }
}

#[test]
fn binding_round_trip() {
    let build = || {
        Packet::with_id(
            9,
            device(5),
            device(6),
            PacketBody::P2P(Binding {
                from: device(7),
                body: b"probe".to_vec(),
                signature: vec![0xcc; 16],
            }),
        )
    };
    let encoded = encode_packet(build());
    let decoded = Packet::decode(&encoded).unwrap();
    assert_eq!(decoded, build());
}

#[test]
fn empty_fields_round_trip() {
    let build = || {
        Packet::with_id(
            0,
            device(0),
            device(0),
            PacketBody::Data(Data { data: Vec::new() }),
        )
    };
    let encoded = encode_packet(build());
    assert_eq!(encoded.len(), 45 + 8);
    assert_eq!(Packet::decode(&encoded).unwrap(), build());
}

#[test]
fn exact_wire_layout() {
    let encoded = encode_packet(data_packet(0x0102030405060708, b"\x99"));
    let mut expected = vec![1u8, 2, 3, 4, 5, 6, 7, 8]; // packet id, big-endian
    expected.push(0x01); // kind byte: data
    expected.extend_from_slice(&[1u8; 16]); // from
    expected.extend_from_slice(&[2u8; 16]); // to
    expected.extend_from_slice(&[0u8; 4]); // flags
    expected.extend_from_slice(&[0, 0, 0, 0, 0, 0, 0, 1]); // u64 payload length
    expected.push(0x99); // payload
    assert_eq!(encoded, expected);
}

#[test]
fn truncation_yields_insufficient_data_at_every_offset() {
    let packets = vec![
        encode_packet(data_packet(1, b"payload")),
        encode_packet(Packet::with_id(
            2,
            device(1),
            device(2),
            PacketBody::KeyExchange(KeyExchange {
                typ: KEY_EXCHANGE_REQUEST,
                public_key: vec![1, 2, 3, 4],
                signature: vec![5, 6],
            }),
        )),
        encode_packet(Packet::with_id(
            3,
            device(1),
            device(2),
            PacketBody::P2P(Binding {
                from: device(9),
                body: vec![1],
                signature: vec![2, 3],
            }),
        )),
    ];
    for encoded in packets {
        for cut in 0..encoded.len() {
            assert_eq!(
                Packet::decode(&encoded[..cut]),
                Err(Error::InsufficientData),
                "offset {cut}"
            );
        }
    }
}

#[test]
fn empty_buffer_is_insufficient() {
    assert_eq!(Packet::decode(&[]), Err(Error::InsufficientData));
}

#[test]
fn unknown_kind_is_rejected() {
    for bad in [0x00u8, 0x02, 0x05, 0x07, 0x11, 0xff] {
        let mut encoded = encode_packet(data_packet(11, b"x"));
        encoded[8] = bad;
        assert_eq!(Packet::decode(&encoded), Err(Error::UnknownKind), "byte {bad:#x}");
    }
}

#[test]
fn kind_registry_is_closed() {
    assert_eq!(PacketKind::try_from(0x01), Ok(PacketKind::Data));
    assert_eq!(PacketKind::try_from(0x10), Ok(PacketKind::KeyExchange));
    assert_eq!(PacketKind::try_from(0x06), Ok(PacketKind::P2P));
    for bad in [0x00u8, 0x02, 0x05, 0x0f, 0x11, 0xff] {
        assert_eq!(PacketKind::try_from(bad), Err(Error::UnknownKind));
    }
    assert_eq!(PacketKind::Data.wire_byte(), 0x01);
    assert_eq!(PacketKind::KeyExchange.wire_byte(), 0x10);
    assert_eq!(PacketKind::P2P.wire_byte(), 0x06);
}

#[test]
fn ttl_of_new_packet_is_seven() {
    let mut generator = SequenceGenerator::new();
    for _ in 0..10 {
        let packet = Packet::new(
            &mut generator,
            device(1),
            device(2),
            PacketBody::Data(Data { data: vec![1] }),
        );
        assert_eq!(packet.header.ttl(), 7);
        assert_eq!(packet.header.ttl(), DEFAULT_TTL);
    }
}

#[test]
fn ttl_of_with_id_packet_is_exact() {
    for id in [0u64, 1, 1 << 61, 3 << 61, u64::MAX, 0x2fff_ffff_ffff_ffff] {
        let packet = data_packet(id, b"x");
        assert_eq!(packet.header.packet_id, id);
        assert_eq!(packet.header.ttl(), ((id >> 61) & 0b111) as u8);
    }
}

#[test]
fn new_packets_get_distinct_sequence_values() {
    let mut generator = SequenceGenerator::new();
    let mask = (1u64 << 61) - 1;
    let mut seen = Vec::new();
    for expected in 0..100u64 {
        let packet = Packet::new(
            &mut generator,
            device(1),
            device(2),
            PacketBody::Data(Data { data: Vec::new() }),
        );
        let sequence = packet.header.packet_id & mask;
        assert_eq!(sequence, expected);
        assert!(!seen.contains(&sequence));
        seen.push(sequence);
    }
}

#[test]
fn body_lengths_match_serialized_sizes() {
    let data = Data { data: vec![0; 10] };
    assert_eq!(data.len(), 8 + 10);

    let kex = KeyExchange {
        typ: KEY_EXCHANGE_REQUEST,
        public_key: vec![0; 32],
        signature: vec![0; 64],
    };
    assert_eq!(kex.len(), 1 + 4 + 32 + 4 + 64);

    let binding = Binding { from: device(1), body: vec![0; 5], signature: vec![0; 6] };
    assert_eq!(binding.len(), ID_LENGTH + 8 + 5 + 6);

    assert_eq!(PacketBody::Data(data).len(), 18);
    assert_eq!(PacketBody::KeyExchange(kex).len(), 105);
    assert_eq!(PacketBody::P2P(binding).len(), ID_LENGTH + 19);
}

#[test]
fn packet_len_matches_encoded_len() {
    let packet = data_packet(1, b"four");
    let total = packet.len();
    let encoded = encode_packet(packet);
    assert_eq!(total, encoded.len());
    assert_eq!(total, PacketHeader::len() + 8 + 4);
}

#[test]
fn ping_example() {
    let mut generator = SequenceGenerator::new();
    let packet = Packet::new(
        &mut generator,
        device(0),
        device(0),
        PacketBody::Data(Data { data: b"ping".to_vec() }),
    );
    let encoded = packet.encode_into_bytes();
    assert_eq!(encoded.len(), 13 + 2 * 16 + 8 + 4);
    let decoded = Packet::decode(&encoded).unwrap();
    assert_eq!(decoded.header.kind, PacketKind::Data);
    match decoded.body {
        PacketBody::Data(data) => assert_eq!(data.data, b"ping".to_vec()),
        _ => panic!("wrong body variant"),
    }
}

#[test]
fn encode_into_bytes_matches_encode() {
    let buffer = data_packet(5, b"abc").encode_into_bytes();
    let encoded = encode_packet(data_packet(5, b"abc"));
    assert_eq!(&buffer[..], &encoded[..]);
}

#[test]
fn decode_bytes_matches_decode_from_slice() {
    let encoded = encode_packet(data_packet(6, b"xyz"));
    let from_bytes = Packet::decode_bytes(&Bytes::from(encoded.clone())).unwrap();
    let from_slice = Packet::decode(&encoded).unwrap();
    assert_eq!(from_bytes, from_slice);
}

#[test]
fn decode_bytes_reports_errors() {
    let mut encoded = encode_packet(data_packet(6, b"xyz"));
    encoded[8] = 0x55;
    assert_eq!(
        Packet::decode_bytes(&Bytes::from(encoded)),
        Err(Error::UnknownKind)
    );
    assert_eq!(
        Packet::decode_bytes(&Bytes::from(vec![0u8; 10])),
        Err(Error::InsufficientData)
    );
}

#[test]
fn trailing_bytes_are_ignored() {
    let mut encoded = encode_packet(data_packet(12, b"tail"));
    encoded.extend_from_slice(b"garbage");
    assert_eq!(Packet::decode(&encoded).unwrap(), data_packet(12, b"tail"));
}

#[test]
fn flags_travel_on_the_wire() {
    assert_eq!(PacketFlags::empty().bits(), 0);
    assert_eq!(PacketFlags::from_bits(0xdead_beef).bits(), 0xdead_beef);

    let mut encoded = encode_packet(data_packet(13, b"f"));
    // flags sit right after the two identifiers
    let flags_at = 9 + 2 * ID_LENGTH;
    encoded[flags_at..flags_at + 4].copy_from_slice(&[0xde, 0xad, 0xbe, 0xef]);
    let decoded = Packet::decode(&encoded).unwrap();
    assert_eq!(decoded.header.flags.bits(), 0xdead_beef);
}

#[test]
fn body_decoders_consume_only_their_own_bytes() {
    // a data body alone, via the trait
    let data = Data::decode(&[0, 0, 0, 0, 0, 0, 0, 2, 0xaa, 0xbb, 0xcc]).unwrap();
    assert_eq!(data.data, vec![0xaa, 0xbb]);
    assert_eq!(Data::decode(&[0, 0, 0, 0, 0, 0, 0]), Err(Error::InsufficientData));
    assert_eq!(
        Data::decode(&[0, 0, 0, 0, 0, 0, 0, 9, 1, 2]),
        Err(Error::InsufficientData)
    );
}

#[test]
fn device_id_keeps_its_bytes() {
    let id = DeviceId::from_bytes((0u8..16).collect());
    assert_eq!(id.as_bytes().as_slice(), &(0u8..16).collect::<Vec<u8>>()[..]);
}
