use lifelinetty::compression::{compress, decompress, CompressionCodec, MAX_DECOMPRESSED_SIZE};
use lifelinetty::Error;

#[test]
fn noop_codec_roundtrips() {
    let buf = b"hello world";
    let c = CompressionCodec::Uncompressed;
    let compressed = compress(buf, c).unwrap();
    assert_eq!(compressed, buf);
    let decompressed = decompress(&compressed, c).unwrap();
    assert_eq!(decompressed, buf);
}

#[test]
fn lz4_roundtrips() {
    let payload = b"the quick brown fox";
    let compressed = compress(payload, CompressionCodec::Lz4).unwrap();
    let decompressed = decompress(&compressed, CompressionCodec::Lz4).unwrap();
    assert_eq!(decompressed, payload);
}

#[test]
fn zstd_roundtrips() {
    let payload = b"do not go gentle";
    let compressed = compress(payload, CompressionCodec::Zstd).unwrap();
    let decompressed = decompress(&compressed, CompressionCodec::Zstd).unwrap();
    assert_eq!(decompressed, payload);
}

#[test]
fn decompress_limits_size() {
    let payload = vec![0u8; MAX_DECOMPRESSED_SIZE + 1];
    let compressed = compress(&payload, CompressionCodec::Zstd).unwrap();
    let err = decompress(&compressed, CompressionCodec::Zstd).unwrap_err();
    match err {
        Error::Parse(msg) => assert!(msg.contains("exceeded")),
        _ => panic!("expected parse error for oversize payload"),
    }
}

#[test]
fn lz4_compression_changes_bytes() {
    let payload = b"aaaaaaaaaaaaaaaaaaaaaaaaaaaaaaaaaaaaaaaa";
    let compressed = compress(payload, CompressionCodec::Lz4).unwrap();
    assert_ne!(compressed.as_slice(), payload.as_slice());
}

#[test]
fn zstd_compression_changes_bytes() {
    let payload = b"bbbbbbbbbbbbbbbbbbbbbbbbbbbbbbbbbbbbbbbb";
    let compressed = compress(payload, CompressionCodec::Zstd).unwrap();
    assert_ne!(compressed.as_slice(), payload.as_slice());
}

#[test]
fn malformed_lz4_is_a_parse_error() {
    let err = decompress(b"definitely not lz4", CompressionCodec::Lz4).unwrap_err();
    assert!(matches!(err, Error::Parse(_)));
}

#[test]
fn uncompressed_payload_passes_through_whatever_its_size() {
    let payload = vec![1u8; MAX_DECOMPRESSED_SIZE + 1];
    let out = decompress(&payload, CompressionCodec::Uncompressed).unwrap();
    assert_eq!(out, payload);
}

#[test]
fn malformed_zstd_is_a_parse_error() {
    let err = decompress(b"definitely not zstd", CompressionCodec::Zstd).unwrap_err();
    assert!(matches!(err, Error::Parse(_)));
}

#[test]
fn codec_names_round_trip() {
    for codec in [CompressionCodec::Uncompressed, CompressionCodec::Lz4, CompressionCodec::Zstd] {
        assert_eq!(CompressionCodec::from_name(codec.as_str()), Some(codec));
    }
    assert_eq!(CompressionCodec::from_name("snappy"), None);
}
