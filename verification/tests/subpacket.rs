use garlemald::subpacket::{
    GameMessageHeader, PacketError, SubPacket, SubPacketHeader, GAMEMESSAGE_SIZE, SUBPACKET_SIZE,
    SUBPACKET_TYPE_GAMEMESSAGE,
};

#[test]
fn game_message_roundtrip() {
    let sub = SubPacket::new(0xBEEF, 0xDEADBEEF, vec![1, 2, 3, 4]);
    let bytes = sub.to_bytes();
    assert_eq!(bytes.len(), sub.header.subpacket_size as usize);

    let mut off = 0;
    let parsed = SubPacket::parse(&bytes, &mut off).unwrap();
    assert_eq!(parsed.header.source_id, 0xDEADBEEF);
    assert_eq!(parsed.header.packet_type, SUBPACKET_TYPE_GAMEMESSAGE);
    assert_eq!(parsed.game_message.opcode, 0xBEEF);
    assert_eq!(parsed.data, vec![1, 2, 3, 4]);
    assert_eq!(off, bytes.len());
}

#[test]
fn raw_subpacket_roundtrip() {
    let sub = SubPacket::new_with_flag(false, 0x01, 0x11, vec![9, 8, 7]);
    let bytes = sub.to_bytes();
    let mut off = 0;
    let parsed = SubPacket::parse(&bytes, &mut off).unwrap();
    assert_eq!(parsed.header.packet_type, 0x01);
    assert_eq!(parsed.data, vec![9, 8, 7]);
}

#[test]
fn stamp_target_id_if_zero_stamps_untargeted_only() {
    // Two-subpacket stream: first untargeted, second pre-tagged.
    let untagged = SubPacket::new(0x0134, 0x1111, vec![0u8; 8]);
    let mut tagged = SubPacket::new(0x0134, 0x2222, vec![0u8; 8]);
    tagged.set_target_id(0xDEAD_BEEF);
    let mut stream = untagged.to_bytes();
    stream.extend(tagged.to_bytes());

    let stamped = SubPacket::stamp_target_id_if_zero(&mut stream, 42);
    assert_eq!(stamped, 1);

    let mut off = 0usize;
    let first = SubPacket::parse(&stream, &mut off).unwrap();
    let second = SubPacket::parse(&stream, &mut off).unwrap();
    assert_eq!(first.header.target_id, 42);
    assert_eq!(second.header.target_id, 0xDEAD_BEEF);
}

#[test]
fn stamp_target_id_if_zero_ignores_non_subpacket_bytes() {
    // Garbage / truncated buffers must be left untouched.
    let mut short = vec![1u8, 2, 3];
    assert_eq!(SubPacket::stamp_target_id_if_zero(&mut short, 42), 0);
    assert_eq!(short, vec![1, 2, 3]);
}

#[test]
fn game_message_layout_is_little_endian() {
    let sub = SubPacket::new_with_flag_at(true, 0x0195, 0x0403_0201, vec![0xAA, 0xBB], 0x0D0C_0B0A);
    assert_eq!(sub.header.subpacket_size, 34);
    let bytes = sub.to_bytes();
    assert_eq!(
        bytes,
        vec![
            34, 0, 3, 0, 0x01, 0x02, 0x03, 0x04, 0, 0, 0, 0, 0, 0, 0, 0, //
            0x14, 0, 0x95, 0x01, 0, 0, 0, 0, 0x0A, 0x0B, 0x0C, 0x0D, 0, 0, 0, 0, //
            0xAA, 0xBB,
        ]
    );
}

#[test]
fn raw_subpacket_has_zero_game_message_and_no_timestamp() {
    let sub = SubPacket::new_with_flag(false, 0x0007, 5, vec![1]);
    assert_eq!(sub.header.subpacket_size, 17);
    assert_eq!(sub.header.packet_type, 7);
    assert_eq!(sub.game_message.opcode, 0);
    assert_eq!(sub.game_message.timestamp, 0);
    assert_eq!(sub.to_bytes().len(), 17);
}

#[test]
fn parse_reports_too_small() {
    let bytes = vec![0u8; 10];
    let mut off = 0usize;
    let r = SubPacket::parse(&bytes, &mut off);
    assert!(matches!(r, Err(PacketError::TooSmall { needed: 16, have: 10 })));
    assert_eq!(off, 0);
}

#[test]
fn parse_reports_size_below_headers() {
    // A game-message subpacket that declares 20 bytes: less than its 32 bytes of headers.
    let mut bytes = vec![0u8; 40];
    bytes[0] = 20;
    bytes[2] = 3;
    let mut off = 0usize;
    let r = SubPacket::parse(&bytes, &mut off);
    assert!(matches!(r, Err(PacketError::SizeMismatch { declared: 20, available: 40 })));
    assert_eq!(off, 0);
}

#[test]
fn parse_reports_size_past_end() {
    let sub = SubPacket::new(0x10, 1, vec![1, 2, 3, 4, 5]);
    let bytes = sub.to_bytes();
    let truncated = &bytes[..bytes.len() - 1];
    let mut off = 0usize;
    let r = SubPacket::parse(truncated, &mut off);
    assert!(matches!(r, Err(PacketError::SizeMismatch { declared: 37, available: 36 })));
    assert_eq!(off, 0);
}

#[test]
fn parse_walks_a_stream_at_an_offset() {
    let a = SubPacket::new_with_flag(false, 0x22, 0x0A0B_0C0D, vec![7, 7]);
    let b = SubPacket::new(0x33, 2, vec![]);
    let mut stream = vec![0xEE, 0xEE];
    stream.extend(a.to_bytes());
    stream.extend(b.to_bytes());
    let mut off = 2usize;
    let pa = SubPacket::parse(&stream, &mut off).unwrap();
    assert_eq!(pa.header.source_id, 0x0A0B_0C0D);
    assert_eq!(pa.data, vec![7, 7]);
    assert_eq!(off, 2 + 18);
    let pb = SubPacket::parse(&stream, &mut off).unwrap();
    assert_eq!(pb.game_message.opcode, 0x33);
    assert!(pb.data.is_empty());
    assert_eq!(off, stream.len());
}

#[test]
fn to_bytes_pads_to_declared_size() {
    let mut sub = SubPacket::new_with_flag(false, 0x05, 1, vec![9]);
    sub.header.subpacket_size = 20;
    let bytes = sub.to_bytes();
    assert_eq!(bytes.len(), 20);
    assert_eq!(&bytes[16..], &[9, 0, 0, 0]);
}

#[test]
fn try_parse_waits_for_complete_subpacket() {
    let sub = SubPacket::new(0x44, 9, vec![1, 2, 3]);
    let bytes = sub.to_bytes();
    let mut off = 0usize;
    assert!(SubPacket::try_parse(&bytes, &mut off, bytes.len() - 1).is_none());
    assert_eq!(off, 0);
    assert!(SubPacket::try_parse(&bytes[..1], &mut off, 1).is_none());
    assert_eq!(off, 0);
    let p = SubPacket::try_parse(&bytes, &mut off, bytes.len()).unwrap();
    assert_eq!(p.data, vec![1, 2, 3]);
    assert_eq!(off, bytes.len());
    assert!(SubPacket::try_parse(&bytes, &mut off, bytes.len()).is_none());
    assert_eq!(off, bytes.len());
}

#[test]
fn try_parse_gives_none_for_malformed_subpacket() {
    let mut bytes = vec![0u8; 24];
    bytes[0] = 4;
    let mut off = 0usize;
    assert!(SubPacket::try_parse(&bytes, &mut off, 24).is_none());
    assert_eq!(off, 0);
}

#[test]
fn with_target_copies_and_retargets() {
    let sub = SubPacket::new(0x55, 3, vec![4, 5]);
    let other = SubPacket::with_target(&sub, 77);
    assert_eq!(other.header.target_id, 77);
    assert_eq!(other.header.source_id, 3);
    assert_eq!(other.game_message.opcode, 0x55);
    assert_eq!(other.data, vec![4, 5]);
    assert_eq!(sub.header.target_id, 0);
}

#[test]
fn stamping_twice_stamps_nothing_more() {
    let a = SubPacket::new(0x01, 1, vec![1]);
    let b = SubPacket::new(0x02, 2, vec![2, 2]);
    let mut stream = a.to_bytes();
    stream.extend(b.to_bytes());
    assert_eq!(SubPacket::stamp_target_id_if_zero(&mut stream, 9), 2);
    let once = stream.clone();
    assert_eq!(SubPacket::stamp_target_id_if_zero(&mut stream, 9), 0);
    assert_eq!(stream, once);
}

#[test]
fn stamping_stops_at_a_size_below_header() {
    let a = SubPacket::new(0x01, 1, vec![]);
    let mut stream = a.to_bytes();
    let mut bogus = vec![0u8; 16];
    bogus[0] = 3;
    stream.extend(bogus);
    stream.extend(SubPacket::new(0x02, 2, vec![]).to_bytes());
    assert_eq!(SubPacket::stamp_target_id_if_zero(&mut stream, 5), 1);
    let mut off = 48usize;
    let last = SubPacket::parse(&stream, &mut off).unwrap();
    assert_eq!(last.header.target_id, 0);
}

#[test]
fn headers_write_and_read_back() {
    let h = SubPacketHeader {
        subpacket_size: 0x1234,
        packet_type: 0x0003,
        source_id: 0x0102_0304,
        target_id: 0xA0B0_C0D0,
        unknown1: 0xFFFF_0000,
    };
    let mut out = [0u8; SUBPACKET_SIZE];
    h.write(&mut out);
    assert_eq!(out, [0x34, 0x12, 0x03, 0x00, 0x04, 0x03, 0x02, 0x01, 0xD0, 0xC0, 0xB0, 0xA0, 0, 0, 0xFF, 0xFF]);
    let back = SubPacketHeader::read(&out).unwrap();
    assert_eq!(back, h);

    let g = GameMessageHeader { unknown4: 0x14, opcode: 0x0139, unknown5: 1, timestamp: 0x6000_0000, unknown6: 2 };
    let mut gout = [0u8; GAMEMESSAGE_SIZE];
    g.write(&mut gout);
    assert_eq!(GameMessageHeader::read(&gout).unwrap(), g);
    assert!(matches!(
        GameMessageHeader::read(&gout[..15]),
        Err(PacketError::TooSmall { needed: 16, have: 15 })
    ));
    assert!(matches!(SubPacketHeader::read(&out[..3]), Err(PacketError::TooSmall { needed: 16, have: 3 })));
}

#[test]
fn raw_subpacket_with_game_message_type_is_read_as_game_message() {
    // A raw subpacket whose opcode is 3 declares only 16 bytes of headers, but
    // its type says game message, which needs 32: parsing refuses it.
    let sub = SubPacket::new_with_flag(false, SUBPACKET_TYPE_GAMEMESSAGE, 1, vec![1, 2]);
    assert_eq!(sub.header.subpacket_size, 18);
    let mut padded = sub.clone();
    padded.header.subpacket_size = 40;
    let bytes = padded.to_bytes();
    let mut off = 0usize;
    let p = SubPacket::parse(&bytes, &mut off).unwrap();
    assert_eq!(p.data.len(), 8);
}

#[test]
fn try_parse_at_the_top_of_the_offsets_gives_none() {
    let bytes = vec![0u8; 4];
    let mut off = usize::MAX;
    assert!(SubPacket::try_parse(&bytes, &mut off, usize::MAX).is_none());
    assert_eq!(off, usize::MAX);
}
