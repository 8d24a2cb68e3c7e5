// Sealed bytes computed independently from the published definitions of
// ChaCha20, Poly1305 and the OpenSSH construction, for the key 00 01 .. 3f.

use ssh_aead::cipher::ChaCha20Poly1305;

fn counting_key() -> Vec<u8> {
    (0u8..64).collect()
}

fn engine() -> ChaCha20Poly1305 {
    let key: Vec<u8> = counting_key();
    ChaCha20Poly1305::new(&key, &key)
}

#[test]
fn ping_is_sealed_to_the_known_bytes() {
    let mut buf: Vec<u8> = vec![0x00, 0x00, 0x00, 0x04, b'p', b'i', b'n', b'g'];
    engine().encrypt(0, &mut buf);
    let expected: Vec<u8> = vec![
        0x94, 0x45, 0x0e, 0x5d, 0x68, 0xd1, 0x2c, 0x56, 0x70, 0xff, 0xe0, 0x93, 0xe9, 0x22, 0x2b,
        0xe3, 0x09, 0xd5, 0xca, 0x61, 0x10, 0x5d, 0x5b, 0x9c,
    ];
    assert_eq!(buf, expected);
}

#[test]
fn ping_is_sealed_otherwise_under_the_next_sequence_number() {
    let mut buf: Vec<u8> = vec![0x00, 0x00, 0x00, 0x04, b'p', b'i', b'n', b'g'];
    engine().encrypt(1, &mut buf);
    let expected: Vec<u8> = vec![
        0xc9, 0x22, 0xa7, 0xa1, 0x19, 0x35, 0x12, 0xbe, 0x24, 0xe3, 0x5e, 0x2b, 0xeb, 0x6a, 0x86,
        0xf2, 0x7a, 0x97, 0x2e, 0x1d, 0x12, 0xa3, 0x85, 0x0d,
    ];
    assert_eq!(buf, expected);
}

#[test]
fn empty_payload_is_sealed_to_the_known_bytes() {
    let mut buf: Vec<u8> = vec![0x00, 0x00, 0x00, 0x00];
    engine().encrypt(7, &mut buf);
    let expected: Vec<u8> = vec![
        0xa3, 0x9a, 0xfc, 0xaa, 0xb7, 0x5c, 0x7b, 0xc0, 0x7f, 0x6f, 0xd0, 0x9f, 0xf9, 0x86, 0xf8,
        0x27, 0xba, 0xf5, 0x0f, 0xf1,
    ];
    assert_eq!(buf, expected);
}

fn long_packet() -> Vec<u8> {
    let mut packet: Vec<u8> = vec![0x00, 0x00, 0x00, 0x46];
    for i in 0u32..70 {
        packet.push(((i * 7 + 3) & 0xff) as u8);
    }
    packet
}

fn long_packet_sealed() -> Vec<u8> {
    vec![
        0x69, 0xa6, 0x14, 0x8e, 0x34, 0x70, 0x4d, 0x84, 0xc1, 0x02, 0xa1, 0x0f, 0xd9, 0xbf, 0x0d,
        0xbe, 0x29, 0x47, 0x52, 0x63, 0xe6, 0x6b, 0x19, 0xa5, 0xde, 0xc7, 0x12, 0xf5, 0x43, 0xf4,
        0x8f, 0xa2, 0x4e, 0xce, 0xae, 0x68, 0x07, 0x3f, 0x24, 0xa7, 0x8e, 0x5c, 0x4f, 0x64, 0x37,
        0xf1, 0xea, 0x56, 0xe8, 0xdb, 0xde, 0x10, 0x59, 0xc1, 0x2f, 0x9d, 0x70, 0x79, 0x6d, 0x0f,
        0x3b, 0xd0, 0x16, 0x02, 0x07, 0x44, 0x3c, 0xea, 0xcd, 0x8d, 0x36, 0xd3, 0xa1, 0x97, 0xef,
        0xe1, 0xdd, 0x42, 0x08, 0x5c, 0x3f, 0xd5, 0xd0, 0xc4, 0x04, 0xa5, 0x59, 0x20, 0x2e, 0x8c,
    ]
}

#[test]
fn payload_over_one_block_is_sealed_to_the_known_bytes() {
    let mut buf: Vec<u8> = long_packet();
    engine().encrypt(0xffff_fffe, &mut buf);
    assert_eq!(buf, long_packet_sealed());
}

#[test]
fn known_bytes_open_to_the_packet() {
    let wire: Vec<u8> = long_packet_sealed();
    let mut opener = engine();
    assert_eq!(opener.packet_len(0xffff_fffe, &wire[..4]), 70);
    assert_eq!(opener.data_len(0xffff_fffe, &wire[..4]), 90);
    assert_eq!(opener.decrypt(0xffff_fffe, &wire), Ok(long_packet()));
}

#[test]
fn keystream_does_not_depend_on_the_packet() {
    // Sealing zeros lays the two keystreams bare; any other packet is its
    // own bytes xored with them.
    let pads: Vec<u8> = vec![0x46, 0x74, 0xad, 0xae, 0xd9, 0x33, 0x44, 0xa8, 0xc5, 0x37, 0xda, 0xd0];
    let mut zeros: Vec<u8> = vec![0u8; 12];
    engine().encrypt(9, &mut zeros);
    assert_eq!(&zeros[..12], &pads[..]);

    let packet: Vec<u8> = vec![0x00, 0x00, 0x00, 0x08, 0xde, 0xad, 0xbe, 0xef, 0x01, 0x02, 0x03, 0x04];
    let mut sealed: Vec<u8> = packet.clone();
    engine().encrypt(9, &mut sealed);
    for i in 0..12 {
        assert_eq!(sealed[i], packet[i] ^ pads[i]);
    }
}

#[test]
fn keystream_does_not_depend_on_the_length() {
    // Longer packets are an extension of shorter ones, byte for byte, up to
    // the tag.
    let mut longest: Vec<u8> = vec![0u8; 1000];
    engine().encrypt(9, &mut longest);
    let lengths: [usize; 8] = [4, 12, 67, 68, 69, 132, 133, 500];
    for &len in lengths.iter() {
        let mut shorter: Vec<u8> = vec![0u8; len];
        engine().encrypt(9, &mut shorter);
        assert_eq!(shorter.len(), len + 16);
        assert_eq!(&shorter[..len], &longest[..len]);
    }
}

#[test]
fn tag_covers_every_sealed_byte() {
    // Packets that differ in one byte, wherever it stands, have other tags.
    let packet: Vec<u8> = vec![0x00, 0x00, 0x00, 0x08, 0xde, 0xad, 0xbe, 0xef, 0x01, 0x02, 0x03, 0x04];
    let mut sealed: Vec<u8> = packet.clone();
    engine().encrypt(9, &mut sealed);
    for i in 0..packet.len() {
        let mut other: Vec<u8> = packet.clone();
        other[i] ^= 0x01;
        engine().encrypt(9, &mut other);
        assert_ne!(&other[12..], &sealed[12..]);
    }
}
