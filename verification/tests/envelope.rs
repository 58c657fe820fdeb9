use lzf_envelope::compress_lzf;
use lzf_envelope::decompress_lzf;
use lzf_envelope::utils::headers::convert_to_size;
use lzf_envelope::utils::headers::header_from_compressed;
use lzf_envelope::utils::headers::lzf_structure_from_compressed;
use lzf_envelope::utils::headers::lzf_structure_from_uncompressed;
use lzf_envelope::utils::headers::EnvelopeError;
use lzf_envelope::utils::headers::LzfHeader;
use lzf_envelope::utils::headers::LzfStructure;

const TEST_STRING: &str = "On the other hand, we denounce with righteous indignation and dislike men who are so beguiled and demoralized by the charms of pleasure of the moment, so blinded by desire, that they cannot foresee the pain and trouble that are bound to ensue; and equal blame belongs to those who fail in their duty through weakness of will, which is the same as saying through shrinking from toil and pain";

#[test]
fn test_compress_decompress() {
    let compressed_structure = lzf_structure_from_uncompressed(TEST_STRING.as_bytes()).unwrap();

    match decompress_lzf(&compressed_structure.to_compressed()) {
        Ok(decompressed) => {
            println!("Decompressed: {:?}", decompressed);
            assert_eq!(decompressed.len(), compressed_structure.header.original_len);
            assert_eq!(390, compressed_structure.header.original_len);
            assert_eq!(351, compressed_structure.header.compressed_len);
        }
        Err(error) => {
            println!("Got error: {:?}", error);
            assert!(false);
        }
    };
}

#[test]
fn test_decompress() {
    let compressed = compress_lzf(TEST_STRING.as_bytes()).unwrap();

    match decompress_lzf(&compressed) {
        Ok(decompressed) => {
            println!("Decompressed: {:?}", decompressed);
            assert_eq!(358, compressed.len());
        }
        Err(error) => {
            println!("Got error: {:?}", error);
            assert!(false);
        }
    };
}

#[test]
fn test_round_trip() {
    let envelope = compress_lzf(TEST_STRING.as_bytes()).unwrap();
    let decompressed = decompress_lzf(&envelope).unwrap();
    assert_eq!(TEST_STRING.as_bytes(), &decompressed[..]);
    assert_eq!(390, decompressed.len());
}

#[test]
fn test_compress_ten_a() {
    let payload = b"aaaaaaaaaa";
    let structure = lzf_structure_from_uncompressed(payload).unwrap();
    assert!(structure.header.compressed_len <= 10);
    assert_eq!(10, structure.header.original_len);
    assert!(structure.header.is_compressed);

    let decoded = decompress_lzf(&structure.to_compressed()).unwrap();
    assert_eq!(payload.to_vec(), decoded);
}

#[test]
fn test_header_length_fields() {
    let envelope = compress_lzf(TEST_STRING.as_bytes()).unwrap();
    let structure = lzf_structure_from_compressed(&envelope).unwrap();
    assert_eq!(envelope.len() - 7, structure.header.compressed_len);
    assert_eq!(structure.body.len(), structure.header.compressed_len);
    assert_eq!(TEST_STRING.len(), structure.header.original_len);
}

#[test]
fn test_uncompressed_passthrough() {
    // Flag byte 0x00: the body starts at offset 5 and comes back verbatim,
    // whatever the length field at offsets 3..5 claims.
    let envelope = vec![90u8, 86, 0, 255, 255, 7, 8, 9];
    let decoded = decompress_lzf(&envelope).unwrap();
    assert_eq!(vec![7u8, 8, 9], decoded);
}

#[test]
fn test_uncompressed_empty_body() {
    let envelope = vec![90u8, 86, 0, 0, 0];
    let decoded = decompress_lzf(&envelope).unwrap();
    assert!(decoded.is_empty());
}

#[test]
fn test_truncated_input() {
    let envelope = vec![90u8, 86, 1, 0];
    for len in 0..envelope.len() + 1 {
        let result = decompress_lzf(&envelope[..len]);
        assert!(matches!(result, Err(EnvelopeError::BufferTooShort)));
    }
}

#[test]
fn test_truncated_compressed_header() {
    // A compressed-flag envelope needs the full 7 header bytes.
    let envelope = vec![90u8, 86, 1, 0, 5, 0];
    let result = decompress_lzf(&envelope);
    assert!(matches!(result, Err(EnvelopeError::BufferTooShort)));
}

#[test]
fn test_parse_idempotent() {
    let envelope = compress_lzf(TEST_STRING.as_bytes()).unwrap();
    let first = lzf_structure_from_compressed(&envelope).unwrap();
    let second = lzf_structure_from_compressed(&envelope).unwrap();
    assert_eq!(first.header.compress_method, second.header.compress_method);
    assert_eq!(first.header.is_compressed, second.header.is_compressed);
    assert_eq!(first.header.compressed_len, second.header.compressed_len);
    assert_eq!(first.header.original_len, second.header.original_len);
    assert_eq!(first.body, second.body);
}

#[test]
fn test_bad_flag_byte() {
    // 48 is ASCII '0': under the binary flag convention it is malformed.
    let envelope = vec![90u8, 86, 48, 0, 0];
    match decompress_lzf(&envelope) {
        Err(EnvelopeError::HeaderParseError(byte)) => assert_eq!(48, byte),
        other => panic!("expected a header parse error, got {:?}", other),
    }
}

#[test]
fn test_compression_error_on_empty_input() {
    match compress_lzf(&[]) {
        Err(EnvelopeError::CompressionError(cause)) => {
            assert_eq!(lzf::LzfError::NoCompressionPossible, cause);
        }
        other => panic!("expected a compression error, got {:?}", other),
    }
}

#[test]
fn test_decompression_error_on_corrupt_body() {
    // The body byte 31 announces a 32-byte literal run that is not there.
    let envelope = vec![90u8, 86, 1, 0, 1, 0, 64, 31];
    let result = decompress_lzf(&envelope);
    assert!(matches!(result, Err(EnvelopeError::DecompressionError(_))));
}

#[test]
fn test_parse_header_fields() {
    let envelope = vec![90u8, 86, 1, 1, 2, 0, 5, 42];
    let header = header_from_compressed(&envelope).unwrap();
    assert_eq!("ZV", header.compress_method);
    assert!(header.is_compressed);
    assert_eq!(258, header.compressed_len);
    assert_eq!(5, header.original_len);
}

#[test]
fn test_parse_header_uncompressed_sets_original_len_zero() {
    let envelope = vec![90u8, 86, 0, 1, 2, 0, 5, 42];
    let header = header_from_compressed(&envelope).unwrap();
    assert!(!header.is_compressed);
    assert_eq!(258, header.compressed_len);
    assert_eq!(0, header.original_len);
}

#[test]
fn test_convert_to_size() {
    assert_eq!(258, convert_to_size(&[1, 2]));
    assert_eq!(0, convert_to_size(&[0, 0]));
    assert_eq!(65535, convert_to_size(&[255, 255]));
}

#[test]
fn test_serializer_exact_bytes() {
    let structure = LzfStructure {
        header: LzfHeader {
            compress_method: String::from("ZV"),
            is_compressed: false,
            original_len: 0,
            compressed_len: 3,
        },
        body: vec![7, 8, 9],
    };
    assert_eq!(vec![90u8, 86, 0, 0, 3, 0, 0, 7, 8, 9], structure.to_compressed());
}

#[test]
fn test_serializer_truncates_lengths() {
    let structure = LzfStructure {
        header: LzfHeader {
            compress_method: String::from("ZV"),
            is_compressed: true,
            original_len: 65536 + 2,
            compressed_len: 65536 + 515,
        },
        body: vec![],
    };
    assert_eq!(vec![90u8, 86, 1, 2, 3, 0, 2], structure.to_compressed());
}
