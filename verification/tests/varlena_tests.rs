//! The four variable-length header layouts and the normalization step.

use pg_extend::pg_alloc::{MemChunk, MemPool};
use pg_extend::pg_datum::ConversionError;
use pg_extend::varlena::{pg_detoast_datum, varlena_payload, VarLenA};

/// Put raw buffer bytes into the pool as a fresh chunk owned by the top
/// region and return the handle.
fn plant_chunk(pool: &mut MemPool, bytes: Vec<u8>) -> usize {
    let h = pool.chunks.len();
    pool.chunks.push(MemChunk { region: 0, data: Some(bytes) });
    h
}

/// A 4-byte uncompressed buffer whose decoded total size is `total`.
fn four_byte_uncompressed(total: u32, payload: &[u8]) -> Vec<u8> {
    let h = total << 2;
    let mut bytes = h.to_le_bytes().to_vec();
    bytes.extend_from_slice(payload);
    bytes
}

#[test]
fn test_four_byte_header_length_rule() {
    // A 4-byte-header word whose shifted length field is 17 decodes to
    // 17 - 4 = 13 payload bytes.
    let bytes = four_byte_uncompressed(17, &[0u8; 13]);
    let v = VarLenA::from_varlena(&bytes);
    assert!(matches!(v, VarLenA::VarAtt4bU(_)));
    assert_eq!(v.len(), Ok(13));
    assert_eq!(v.size_of(), 4);
}

#[test]
fn test_four_byte_compressed_length_rule() {
    // The compressed layout uses the same size rule; flag bits are 10.
    let h: u32 = (17 << 2) | 0x02;
    let mut bytes = h.to_le_bytes().to_vec();
    bytes.extend_from_slice(&[0u8; 13]);
    let v = VarLenA::from_varlena(&bytes);
    assert!(matches!(v, VarLenA::VarAtt4bC(_)));
    assert_eq!(v.len(), Ok(13));
    assert_eq!(v.size_of(), 4);
}

#[test]
fn test_one_byte_header_length_rule() {
    // A 1-byte header with size field 5 decodes to 5 - 1 = 4 payload bytes.
    let b0: u8 = (5 << 1) | 1;
    let bytes = vec![b0, 10, 20, 30, 40];
    let v = VarLenA::from_varlena(&bytes);
    assert!(matches!(v, VarLenA::VarAtt1b(_)));
    assert_eq!(v.len(), Ok(4));
    assert_eq!(v.size_of(), 1);
}

#[test]
fn test_out_of_line_header_has_no_sized_length() {
    let bytes = vec![0x01u8, 0x00, 7, 8, 9];
    let v = VarLenA::from_varlena(&bytes);
    assert!(matches!(v, VarLenA::VarAtt1bE(_)));
    assert_eq!(v.len(), Err(ConversionError::InvalidEncoding));
    assert_eq!(v.size_of(), 1);
}

#[test]
fn test_corrupt_size_field_rejected() {
    // A 4-byte header whose size field is smaller than the header itself.
    let v = VarLenA::VarAtt4bU(3 << 2);
    assert_eq!(v.len(), Err(ConversionError::InvalidEncoding));
}

#[test]
fn test_payload_of_direct_layouts() {
    let bytes = four_byte_uncompressed(7, b"abc");
    assert_eq!(varlena_payload(&bytes), Ok(b"abc".to_vec()));

    let one = vec![(4 << 1) | 1, 1, 2, 3];
    assert_eq!(varlena_payload(&one), Ok(vec![1, 2, 3]));
}

#[test]
fn test_payload_of_indirect_layouts_is_an_encoding_error() {
    let h: u32 = (7 << 2) | 0x02;
    let mut compressed = h.to_le_bytes().to_vec();
    compressed.extend_from_slice(b"abc");
    assert_eq!(varlena_payload(&compressed), Err(ConversionError::InvalidEncoding));
}

#[test]
fn test_detoast_returns_direct_input_unchanged() {
    let mut pool = MemPool::startup();
    let h = plant_chunk(&mut pool, four_byte_uncompressed(7, b"xyz"));
    let chunks_before = pool.chunks.len();
    let d = pg_detoast_datum(&mut pool, h);
    assert_eq!(d, h);
    assert_eq!(pool.chunks.len(), chunks_before);
}

#[test]
fn test_detoast_copies_compressed_value_out() {
    let mut pool = MemPool::startup();
    let hw: u32 = (7 << 2) | 0x02;
    let mut bytes = hw.to_le_bytes().to_vec();
    bytes.extend_from_slice(b"abc");
    let h = plant_chunk(&mut pool, bytes);
    let d = pg_detoast_datum(&mut pool, h);
    assert_ne!(d, h);
    let fresh = pool.chunks[d].data.as_ref().unwrap();
    assert_eq!(varlena_payload(fresh), Ok(b"abc".to_vec()));
}

#[test]
fn test_detoast_fetches_out_of_line_value() {
    let mut pool = MemPool::startup();
    let bytes = vec![0x01u8, 0x12, 5, 6, 7];
    let h = plant_chunk(&mut pool, bytes);
    let d = pg_detoast_datum(&mut pool, h);
    assert_ne!(d, h);
    let fresh = pool.chunks[d].data.as_ref().unwrap();
    assert_eq!(varlena_payload(fresh), Ok(vec![5, 6, 7]));
}
