use pngme::chunk::read_frame;
use pngme::{Chunk, ChunkType, FormatError};
use std::convert::TryFrom;
use std::str::FromStr;

fn testing_chunk() -> Chunk {
    let data_length: u32 = 42;
    let chunk_type = "RuSt".as_bytes();
    let message_bytes = "This is where your secret message will be!".as_bytes();
    let crc: u32 = 2882656334;

    let chunk_data: Vec<u8> = data_length
        .to_be_bytes()
        .iter()
        .chain(chunk_type.iter())
        .chain(message_bytes.iter())
        .chain(crc.to_be_bytes().iter())
        .copied()
        .collect();
    Chunk::try_from(chunk_data.as_ref()).unwrap()
}

fn wire(length: u32, tag: &[u8], payload: &[u8], crc: u32) -> Vec<u8> {
    length
        .to_be_bytes()
        .iter()
        .chain(tag.iter())
        .chain(payload.iter())
        .chain(crc.to_be_bytes().iter())
        .copied()
        .collect()
}

#[test]
fn test_new_chunk() {
    let chunk_type = ChunkType::from_str("RuSt").unwrap();
    let data = "This is where your secret message will be!".as_bytes().to_vec();
    let chunk = Chunk::new(chunk_type, data);
    assert_eq!(chunk.length(), 42);
    assert_eq!(chunk.crc(), 2882656334);
}

#[test]
fn test_chunk_length() {
    let chunk = testing_chunk();
    assert_eq!(chunk.length(), 42);
}

#[test]
fn test_chunk_type() {
    let chunk = testing_chunk();
    assert_eq!(chunk.chunk_type().to_text().unwrap(), String::from("RuSt"));
}

#[test]
fn test_chunk_string() {
    let chunk = testing_chunk();
    let chunk_string = chunk.data_as_string().unwrap();
    let expected_chunk_string = String::from("This is where your secret message will be!");
    assert_eq!(chunk_string, expected_chunk_string);
}

#[test]
fn test_chunk_crc() {
    let chunk = testing_chunk();
    assert_eq!(chunk.crc(), 2882656334);
}

#[test]
fn test_valid_chunk_from_bytes() {
    let data_length: u32 = 42;
    let chunk_type = "RuSt".as_bytes();
    let message_bytes = "This is where your secret message will be!".as_bytes();
    let crc: u32 = 2882656334;

    let chunk_data: Vec<u8> = data_length
        .to_be_bytes()
        .iter()
        .chain(chunk_type.iter())
        .chain(message_bytes.iter())
        .chain(crc.to_be_bytes().iter())
        .copied()
        .collect();

    let chunk = Chunk::try_from(chunk_data.as_ref()).unwrap();

    let chunk_string = chunk.data_as_string().unwrap();
    let expected_chunk_string = String::from("This is where your secret message will be!");

    assert_eq!(chunk.length(), 42);
    assert_eq!(chunk.chunk_type().to_text().unwrap(), String::from("RuSt"));
    assert_eq!(chunk_string, expected_chunk_string);
    assert_eq!(chunk.crc(), 2882656334);
}

#[test]
fn test_invalid_chunk_from_bytes() {
    let data_length: u32 = 42;
    let chunk_type = "RuSt".as_bytes();
    let message_bytes = "This is where your secret message will be!".as_bytes();
    let crc: u32 = 2882656333;

    let chunk_data: Vec<u8> = data_length
        .to_be_bytes()
        .iter()
        .chain(chunk_type.iter())
        .chain(message_bytes.iter())
        .chain(crc.to_be_bytes().iter())
        .copied()
        .collect();

    let chunk = Chunk::try_from(chunk_data.as_ref());

    assert!(chunk.is_err());
}

#[test]
pub fn test_chunk_trait_impls() {
    let data_length: u32 = 42;
    let chunk_type = "RuSt".as_bytes();
    let message_bytes = "This is where your secret message will be!".as_bytes();
    let crc: u32 = 2882656334;

    let chunk_data: Vec<u8> = data_length
        .to_be_bytes()
        .iter()
        .chain(chunk_type.iter())
        .chain(message_bytes.iter())
        .chain(crc.to_be_bytes().iter())
        .copied()
        .collect();

    let chunk: Chunk = TryFrom::try_from(chunk_data.as_ref()).unwrap();

    let _chunk_string = chunk.to_text();
}

#[test]
fn serialize_layout_of_sample_chunk() {
    let message = "This is where your secret message will be!".as_bytes();
    let chunk = Chunk::new(ChunkType::parse("RuSt").unwrap(), message.to_vec());
    let bytes = chunk.as_bytes();
    assert_eq!(bytes.len(), 12 + 42);
    assert_eq!(bytes, wire(42, b"RuSt", message, 2882656334));
    assert_eq!(&bytes[0..4], &[0, 0, 0, 42]);
    assert_eq!(&bytes[50..54], &2882656334u32.to_be_bytes());
}

#[test]
fn round_trip_keeps_tag_payload_and_crc() {
    let payloads: Vec<Vec<u8>> = vec![
        Vec::new(),
        vec![0],
        vec![255, 0, 128, 7],
        "This is where your secret message will be!".as_bytes().to_vec(),
        (0..=255u8).collect(),
    ];
    for tag in ["RuSt", "IEND", "abcd", "ZZzz"] {
        for p in payloads.iter() {
            let t = ChunkType::parse(tag).unwrap();
            let built = Chunk::new(t, p.clone());
            let back = Chunk::parse(&built.as_bytes()).unwrap();
            assert_eq!(back.chunk_type().bytes(), built.chunk_type().bytes());
            assert_eq!(back.data(), built.data());
            assert_eq!(back.crc(), built.crc());
            assert_eq!(back.length(), p.len() as u32);
            assert_eq!(back.as_bytes(), built.as_bytes());
        }
    }
}

#[test]
fn crc_of_empty_iend_chunk() {
    let chunk = Chunk::new(ChunkType::parse("IEND").unwrap(), Vec::new());
    assert_eq!(chunk.length(), 0);
    assert_eq!(chunk.crc(), 0xAE42_6082);
    assert_eq!(chunk.as_bytes(), vec![0, 0, 0, 0, 73, 69, 78, 68, 0xAE, 0x42, 0x60, 0x82]);
}

#[test]
fn crc_depends_on_tag_and_payload() {
    let a = Chunk::new(ChunkType::parse("RuSt").unwrap(), vec![1, 2, 3]);
    let b = Chunk::new(ChunkType::parse("RuSt").unwrap(), vec![1, 2, 4]);
    let c = Chunk::new(ChunkType::parse("RUSt").unwrap(), vec![1, 2, 3]);
    assert_ne!(a.crc(), b.crc());
    assert_ne!(a.crc(), c.crc());
}

#[test]
fn flipping_any_checksum_bit_is_crc_mismatch() {
    let message = "This is where your secret message will be!".as_bytes();
    let good = Chunk::new(ChunkType::parse("RuSt").unwrap(), message.to_vec()).as_bytes();
    let n = good.len();
    for k in n - 4..n {
        for bit in 0..8 {
            let mut bad = good.clone();
            bad[k] ^= 1 << bit;
            assert_eq!(Chunk::parse(&bad).err(), Some(FormatError::CrcMismatch));
        }
    }
}

#[test]
fn any_other_checksum_value_is_crc_mismatch() {
    let message = "This is where your secret message will be!".as_bytes();
    for crc in [0u32, 1, 2882656333, 2882656335, u32::MAX] {
        let bad = wire(42, b"RuSt", message, crc);
        assert_eq!(Chunk::parse(&bad).err(), Some(FormatError::CrcMismatch));
    }
}

#[test]
fn changed_declared_length_is_rejected() {
    let message = "This is where your secret message will be!".as_bytes();
    let longer = wire(43, b"RuSt", message, 2882656334);
    assert_eq!(Chunk::parse(&longer).err(), Some(FormatError::Truncated));
    let much_longer = wire(u32::MAX, b"RuSt", message, 2882656334);
    assert_eq!(Chunk::parse(&much_longer).err(), Some(FormatError::Truncated));
    let shorter = wire(41, b"RuSt", message, 2882656334);
    assert_eq!(Chunk::parse(&shorter).err(), Some(FormatError::LengthMismatch));
    let zero = wire(0, b"RuSt", message, 2882656334);
    assert_eq!(Chunk::parse(&zero).err(), Some(FormatError::LengthMismatch));
}

#[test]
fn short_buffers_are_truncated() {
    assert_eq!(Chunk::parse(&[]).err(), Some(FormatError::Truncated));
    assert_eq!(Chunk::parse(&[0, 0, 0, 0, 82, 117, 83, 116, 0, 0, 0]).err(), Some(FormatError::Truncated));
}

#[test]
fn non_letter_tag_is_invalid_tag() {
    let bad = wire(3, b"Ru1t", &[1, 2, 3], 0);
    assert_eq!(Chunk::parse(&bad).err(), Some(FormatError::InvalidTag));
    let bad_and_short = wire(100, b"Ru1t", &[1, 2, 3], 0);
    assert_eq!(Chunk::parse(&bad_and_short).err(), Some(FormatError::InvalidTag));
}

#[test]
fn read_frame_gives_declared_fields() {
    let f = read_frame(&wire(3, b"abCD", &[9, 8, 7], 0xDEAD_BEEF)).unwrap();
    assert_eq!(f.declared_length, 3);
    assert_eq!(f.tag.bytes(), *b"abCD");
    assert_eq!(f.data, vec![9, 8, 7]);
    assert_eq!(f.declared_crc, 0xDEAD_BEEF);
    assert_eq!(read_frame(&wire(4, b"abCD", &[9, 8, 7], 0)).err(), Some(FormatError::Truncated));
    assert_eq!(read_frame(&wire(2, b"abCD", &[9, 8, 7], 0)).err(), Some(FormatError::LengthMismatch));
}

#[test]
fn non_utf8_payload() {
    let chunk = Chunk::new(ChunkType::parse("RuSt").unwrap(), vec![0x66, 0xff, 0x66]);
    assert_eq!(chunk.data_as_string(), Err(FormatError::NotUtf8));
    assert_eq!(chunk.to_text(), "Invalid chunk");
    let back = Chunk::parse(&chunk.as_bytes()).unwrap();
    assert_eq!(back.data(), &[0x66, 0xff, 0x66]);
}

#[test]
fn utf8_payload_renders() {
    let chunk = Chunk::new(ChunkType::parse("RuSt").unwrap(), "héllo".as_bytes().to_vec());
    assert_eq!(chunk.data_as_string(), Ok(String::from("héllo")));
    assert_eq!(chunk.to_text(), "héllo");
    assert_eq!(chunk.length(), 6);
}

#[test]
fn end_to_end_sample() {
    let payload = "This is where your secret message will be!".as_bytes().to_vec();
    let chunk = Chunk::new(ChunkType::parse("RuSt").unwrap(), payload.clone());
    assert_eq!(chunk.crc(), 2882656334);
    assert_eq!(chunk.length(), 42);
    let bytes = chunk.as_bytes();
    let again = Chunk::parse(&bytes).unwrap();
    assert_eq!(again.as_bytes(), bytes);
    assert_eq!(again.data(), &payload[..]);
    assert!(*again.chunk_type() == *chunk.chunk_type());
    let n = bytes.len();
    for k in n - 4..n {
        for v in 0..=255u8 {
            if v != bytes[k] {
                let mut bad = bytes.clone();
                bad[k] = v;
                assert_eq!(Chunk::parse(&bad).err(), Some(FormatError::CrcMismatch));
            }
        }
    }
}
