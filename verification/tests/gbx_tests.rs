use tm_server_manager::gamebox;
use tm_server_manager::gbx::{
    gbx_layout_holds, parse_body, parse_v6_body, read_header_entries, replay_record_layout_holds, try_parse_buffer, ChunkId, ChunkSize,
    GBXClass, GBXError, GameCtnReplayRecord, GameboxReader, HeaderEntry, Proxy,
};

const REPLAY: u32 = 0x03093000;

fn le32(v: u32) -> [u8; 4] {
    v.to_le_bytes()
}

/// A version 6 file with one header entry and the given compressed body.
fn gbx_file(class_id: u32, uncompressed: u32, compressed: &[u8]) -> Vec<u8> {
    let mut b = Vec::new();
    b.extend_from_slice(b"GBX");
    b.extend_from_slice(&6u16.to_le_bytes());
    b.extend_from_slice(b"BUCR");
    b.extend_from_slice(&le32(class_id));
    b.extend_from_slice(&le32(12)); // user data: the chunk count and one entry
    b.extend_from_slice(&le32(1));
    b.extend_from_slice(&le32(0x03093002));
    b.extend_from_slice(&le32(0x8000_0010));
    b.extend_from_slice(&le32(3)); // nodes
    b.extend_from_slice(&le32(0)); // external nodes
    b.extend_from_slice(&le32(uncompressed));
    b.extend_from_slice(&le32(compressed.len() as u32));
    b.extend_from_slice(compressed);
    b
}

fn compress(body: &[u8]) -> Vec<u8> {
    let mut lzo = minilzo_rs::LZO::init().unwrap();
    lzo.compress(body).unwrap()
}

fn zlib(data: &[u8]) -> Vec<u8> {
    let mut c = flate2::Compress::new(flate2::Compression::default(), true);
    let mut out = Vec::with_capacity(data.len() + 64);
    c.compress_vec(data, &mut out, flate2::FlushCompress::Finish).unwrap();
    out
}

/// A replay body whose zlib part holds `inflated`, with the sizes that the reader needs.
fn replay_body(inflated: &[u8]) -> Vec<u8> {
    let z = zlib(inflated);
    let mut b = vec![0u8; 36];
    b.extend_from_slice(&le32(inflated.len() as u32));
    b.extend_from_slice(&le32(z.len() as u32));
    b.extend_from_slice(&z);
    b.extend_from_slice(&[0u8; 24]);
    b
}

#[test]
fn reader_reads_little_endian() {
    let bytes = [0x01u8, 0x02, 0x03, 0x04, 0x05, 0x06, 0xAA, 0xBB, 0xCC, 0xDD];
    let mut r = GameboxReader::new(&bytes);
    assert_eq!(r.parse_u32(), 0x0403_0201);
    assert_eq!(r.cursor, 4);
    assert_eq!(r.parse_u16(), 0x0605);
    assert_eq!(r.cursor, 6);
    assert_eq!(r.parse_chunk_id(), ChunkId(0xDDCC_BBAA));
    assert_eq!(r.cursor, 10);
    r.skip(5);
    assert_eq!(r.cursor, 15);
}

#[test]
fn chunk_size_heavy_bit() {
    assert!(ChunkSize(0x8000_0000).is_heavy());
    assert!(!ChunkSize(0x7FFF_FFFF).is_heavy());
    assert_eq!(ChunkSize(0x8000_0010).get_size(), 0x8000_0011);
    assert_eq!(ChunkSize(0x8000_0011).get_size(), 0x8000_0010);
    assert_eq!(ChunkSize(0x10).get_size(), 0x10);
}

#[test]
fn header_entries_are_read_in_order() {
    let file = gbx_file(REPLAY, 0, &[]);
    let entries = read_header_entries(&file, 1);
    assert_eq!(
        entries,
        vec![HeaderEntry { chunk_id: ChunkId(0x03093002), chunk_size: ChunkSize(0x8000_0010) }]
    );
    assert!(read_header_entries(&file, 0).is_empty());
}

#[test]
fn proxy_keeps_the_bytes() {
    assert_eq!(Proxy::new(vec![1, 2, 3]).raw, vec![1, 2, 3]);
}

#[test]
fn missing_magic() {
    let r = try_parse_buffer(b"GBY\x06\x00");
    assert!(matches!(r, Some(Err(GBXError::MissingMagic))));
}

#[test]
fn unsupported_version() {
    let r = try_parse_buffer(b"GBX\x05\x00");
    assert!(matches!(r, Some(Err(GBXError::UnsupportedVersion(5)))));
    let r = try_parse_buffer(b"GBX\x06\x01");
    assert!(matches!(r, Some(Err(GBXError::UnsupportedVersion(262)))));
}

#[test]
fn unknown_class() {
    let body = vec![7u8; 40];
    let file = gbx_file(0x03043000, body.len() as u32, &compress(&body));
    let r = try_parse_buffer(&file);
    assert!(matches!(r, Some(Err(GBXError::UnknownChunk(0x03043000)))));
}

#[test]
fn broken_body_fails_to_decompress() {
    let file = gbx_file(REPLAY, 10, &[]);
    let r = try_parse_buffer(&file);
    assert!(matches!(r, Some(Err(GBXError::DecompressionFailed(_)))));
}

#[test]
fn replay_body_is_read() {
    let body = replay_body(&[1, 0, 9, 3, 5, 6]);
    assert!(replay_record_layout_holds(&body));
    let file = gbx_file(REPLAY, body.len() as u32, &compress(&body));
    let r = try_parse_buffer(&file);
    assert!(matches!(r, Some(Err(GBXError::MissingMagic))));
}

#[test]
fn replay_without_zlib_data_is_truncated() {
    let body = vec![0u8; 68];
    let file = gbx_file(REPLAY, body.len() as u32, &compress(&body));
    let r = try_parse_buffer(&file);
    assert!(matches!(r, Some(Err(GBXError::TruncatedBody))));
}

#[test]
fn replay_zlib_part_is_decompressed() {
    assert!(matches!(GameCtnReplayRecord::try_parse(replay_body(&[1, 2, 3, 4])), Err(GBXError::MissingMagic)));
    assert!(matches!(GameCtnReplayRecord::try_parse(replay_body(&[1, 2, 3])), Err(GBXError::TruncatedBody)));
    assert!(matches!(GameCtnReplayRecord::try_parse(replay_body(&[])), Err(GBXError::TruncatedBody)));
}

#[test]
fn replay_verdict_by_length() {
    assert!(matches!(GameCtnReplayRecord::replay_body_verdict(&vec![0u8; 3]), Err(GBXError::TruncatedBody)));
    assert!(matches!(GameCtnReplayRecord::replay_body_verdict(&vec![0u8; 4]), Err(GBXError::MissingMagic)));
}

#[test]
fn short_replay_body_is_left_out() {
    let body = vec![0u8; 20];
    let file = gbx_file(REPLAY, body.len() as u32, &compress(&body));
    assert!(try_parse_buffer(&file).is_none());
}

#[test]
fn replay_layout() {
    assert!(replay_record_layout_holds(&vec![0u8; 68]));
    assert!(!replay_record_layout_holds(&vec![0u8; 67]));
    let mut b = vec![0u8; 80];
    b[4] = 12; // the map chunk takes 12 bytes
    assert!(replay_record_layout_holds(&b));
    b[4] = 13;
    assert!(!replay_record_layout_holds(&b));
    let mut b = vec![0u8; 68];
    b[43] = 0x80; // a negative compressed size
    assert!(!replay_record_layout_holds(&b));
}

#[test]
fn parse_body_by_class() {
    assert!(matches!(parse_body(ChunkId(1), vec![]), Some(Err(GBXError::UnknownChunk(1)))));
    assert!(parse_body(ChunkId(REPLAY), vec![0u8; 10]).is_none());
    assert!(matches!(parse_body(ChunkId(REPLAY), vec![0u8; 68]), Some(Err(GBXError::TruncatedBody))));
    assert!(matches!(parse_body(ChunkId(REPLAY), replay_body(&[7u8; 9])), Some(Err(GBXError::MissingMagic))));
    let r: Option<Result<GBXClass, GBXError>> = parse_body(ChunkId(5), vec![1, 2, 3]);
    assert!(matches!(r, Some(Err(GBXError::UnknownChunk(5)))));
}

#[test]
fn gamebox_checks_magic_and_version() {
    assert_eq!(gamebox::try_parse_buffer(b"XYZ".to_vec()), Err(gamebox::GBXError::MissingMagic));
    assert_eq!(
        gamebox::try_parse_buffer(b"GBX\x03\x00".to_vec()),
        Err(gamebox::GBXError::UnsupportedVersion(3))
    );
}

#[test]
fn file_layout() {
    let body = vec![0u8; 68];
    let file = gbx_file(REPLAY, body.len() as u32, &compress(&body));
    assert!(gbx_layout_holds(&file));
    assert!(!gbx_layout_holds(&file[..file.len() - 1]));
    assert!(gbx_layout_holds(b"ABC"));
    assert!(!gbx_layout_holds(b"GB"));
    assert!(!gbx_layout_holds(b"GBX\x06"));
    assert!(gbx_layout_holds(b"GBX\x07\x00"));
    assert!(!gbx_layout_holds(b"GBX\x06\x00"));
}

#[test]
fn body_with_a_decompressor_that_did_not_start() {
    let body = vec![0u8; 68];
    let file = gbx_file(REPLAY, body.len() as u32, &compress(&body));
    let r = parse_v6_body(Err(minilzo_rs::Error::InternalError), &file);
    assert!(matches!(r, Some(Err(GBXError::DecompressionFailed(minilzo_rs::Error::InternalError)))));
    let r = parse_v6_body(minilzo_rs::LZO::init(), &file);
    assert!(matches!(r, Some(Err(GBXError::TruncatedBody))));
}
