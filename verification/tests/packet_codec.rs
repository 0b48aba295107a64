use miassistant::adb::{
    adb_cmd, decode_header, AdbError, AdbPacket, PacketHeader, A_CLSE, A_CNXN, A_OKAY, A_OPEN,
    A_WRTE, HEADER_LEN, MAX_PAYLOAD,
};

fn header_array(pkt: &AdbPacket) -> [u8; 24] {
    let mut h = [0u8; 24];
    h.copy_from_slice(&pkt.header());
    h
}

#[test]
fn command_words_are_the_ascii_tags() {
    assert_eq!(adb_cmd(*b"CNXN"), A_CNXN);
    assert_eq!(adb_cmd(*b"OPEN"), A_OPEN);
    assert_eq!(adb_cmd(*b"OKAY"), A_OKAY);
    assert_eq!(adb_cmd(*b"CLSE"), A_CLSE);
    assert_eq!(adb_cmd(*b"WRTE"), A_WRTE);
    assert_eq!(adb_cmd([1, 2, 3, 4]), 0x0403_0201);
}

#[test]
fn header_is_little_endian_with_zero_checksum() {
    let pkt = AdbPacket::new(A_CNXN, 0x0100_0001, 0x0010_0000, b"host::\0".to_vec());
    let h = pkt.header();
    assert_eq!(h.len(), HEADER_LEN);
    assert_eq!(
        h,
        vec![
            0x43, 0x4e, 0x58, 0x4e, 0x01, 0x00, 0x00, 0x01, 0x00, 0x00, 0x10, 0x00, 0x07, 0x00,
            0x00, 0x00, 0x00, 0x00, 0x00, 0x00, 0xbc, 0xb1, 0xa7, 0xb1
        ]
    );
}

#[test]
fn new_keeps_its_arguments() {
    let pkt = AdbPacket::new(5, 6, 7, vec![8, 9]);
    assert_eq!(pkt.cmd, 5);
    assert_eq!(pkt.arg0, 6);
    assert_eq!(pkt.arg1, 7);
    assert_eq!(pkt.payload, vec![8, 9]);
}

#[test]
fn header_round_trip() {
    let pkt = AdbPacket::new(A_WRTE, 0xdead_beef, 0x0102_0304, vec![0xaa; 300]);
    let h = decode_header(&header_array(&pkt)).unwrap();
    assert_eq!(
        h,
        PacketHeader { cmd: A_WRTE, arg0: 0xdead_beef, arg1: 0x0102_0304, len: 300 }
    );
}

#[test]
fn frame_round_trip() {
    for payload in [vec![], vec![0u8], b"sideload-host:1:2:3:0\0".to_vec(), vec![7u8; 70_000]] {
        let pkt = AdbPacket::new(A_OPEN, 1, 0, payload);
        let frame = pkt.encode();
        assert_eq!(frame.len(), 24 + pkt.payload.len());
        assert_eq!(AdbPacket::decode(&frame), Ok(pkt));
    }
}

#[test]
fn frame_round_trip_at_the_payload_cap() {
    let pkt = AdbPacket::new(0x1234_5678, u32::MAX, 0, vec![0x5a; MAX_PAYLOAD]);
    assert_eq!(AdbPacket::decode(&pkt.encode()), Ok(pkt));
}

#[test]
fn decode_rejects_bad_magic() {
    let pkt = AdbPacket::new(A_WRTE, 1, 2, vec![1, 2, 3]);
    let mut h = header_array(&pkt);
    h[20] ^= 1;
    assert_eq!(
        decode_header(&h),
        Err(AdbError::BadMagic {
            magic: (A_WRTE ^ 0xffff_ffff) ^ 1,
            expected: A_WRTE ^ 0xffff_ffff
        })
    );
    let mut frame = pkt.encode();
    frame[23] ^= 0x80;
    assert!(matches!(AdbPacket::decode(&frame), Err(AdbError::BadMagic { .. })));
}

#[test]
fn decode_rejects_oversized_payload() {
    let mut h = header_array(&AdbPacket::new(A_WRTE, 1, 2, Vec::new()));
    h[12..16].copy_from_slice(&((MAX_PAYLOAD as u32) + 1).to_le_bytes());
    assert_eq!(
        decode_header(&h),
        Err(AdbError::OversizedPayload { len: MAX_PAYLOAD as u32 + 1 })
    );
    h[12..16].copy_from_slice(&(MAX_PAYLOAD as u32).to_le_bytes());
    assert_eq!(decode_header(&h).unwrap().len, MAX_PAYLOAD as u32);
}

#[test]
fn bad_magic_is_reported_before_the_length() {
    let mut h = header_array(&AdbPacket::new(A_WRTE, 1, 2, Vec::new()));
    h[12..16].copy_from_slice(&u32::MAX.to_le_bytes());
    h[20] ^= 0xff;
    assert!(matches!(decode_header(&h), Err(AdbError::BadMagic { .. })));
}

#[test]
fn checksum_word_is_not_verified() {
    let mut h = header_array(&AdbPacket::new(A_OKAY, 9, 1, Vec::new()));
    h[16..20].copy_from_slice(&[0xde, 0xad, 0xbe, 0xef]);
    assert_eq!(
        decode_header(&h),
        Ok(PacketHeader { cmd: A_OKAY, arg0: 9, arg1: 1, len: 0 })
    );
}

#[test]
fn decode_rejects_short_and_long_frames() {
    let pkt = AdbPacket::new(A_WRTE, 1, 2, vec![1, 2, 3]);
    let frame = pkt.encode();
    assert_eq!(AdbPacket::decode(&frame[..23]), Err(AdbError::Truncated));
    assert_eq!(AdbPacket::decode(&frame[..26]), Err(AdbError::Truncated));
    let mut long = frame.clone();
    long.push(0);
    assert_eq!(AdbPacket::decode(&long), Err(AdbError::Truncated));
    assert_eq!(AdbPacket::decode(&[]), Err(AdbError::Truncated));
}

#[test]
fn clone_is_equal() {
    let pkt = AdbPacket::new(A_WRTE, 1, 2, vec![1, 2, 3]);
    assert_eq!(pkt.clone(), pkt);
}
