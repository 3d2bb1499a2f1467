use rover::ann::{convert_rows_to_hnsw_elements, FeatureRow};
use rover::codec::{decode_feature_vector, encode_feature_vector, BlobError};
use rover::uuid::UUID;

#[test]
fn blob_layout_is_length_then_little_endian_words() {
    let v: Vec<u32> = vec![1.0f32.to_bits(), 0x0102_0304];
    let b = encode_feature_vector(&v);
    assert_eq!(b.len(), 8 + 4 * 2);
    assert_eq!(&b[0..8], &[2, 0, 0, 0, 0, 0, 0, 0]);
    assert_eq!(&b[8..12], &1.0f32.to_le_bytes());
    assert_eq!(&b[12..16], &[4, 3, 2, 1]);
}

#[test]
fn blob_matches_float_vector_encoding() {
    let floats: Vec<f32> = vec![0.25, -0.5, 0.0, 1.0e-3];
    let bits: Vec<u32> = floats.iter().map(|f| f.to_bits()).collect();
    let b = encode_feature_vector(&bits);
    let mut expected: Vec<u8> = (floats.len() as u64).to_le_bytes().to_vec();
    for f in &floats {
        expected.extend_from_slice(&f.to_le_bytes());
    }
    assert_eq!(b, expected);
}

#[test]
fn blob_round_trip() {
    let v: Vec<u32> = (0..768u32).map(|i| i.wrapping_mul(2_654_435_761)).collect();
    let b = encode_feature_vector(&v);
    assert_eq!(decode_feature_vector(&b), Ok(v));
}

#[test]
fn blob_round_trip_empty() {
    let v: Vec<u32> = Vec::new();
    let b = encode_feature_vector(&v);
    assert_eq!(b, vec![0u8; 8]);
    assert_eq!(decode_feature_vector(&b), Ok(Vec::new()));
}

#[test]
fn blob_truncated_is_refused() {
    assert_eq!(decode_feature_vector(&[]), Err(BlobError::Truncated));
    assert_eq!(decode_feature_vector(&[1, 0, 0]), Err(BlobError::Truncated));
    let b = encode_feature_vector(&vec![7, 8, 9]);
    assert_eq!(decode_feature_vector(&b[..b.len() - 1]), Err(BlobError::Truncated));
}

#[test]
fn blob_trailing_bytes_are_ignored() {
    let mut b = encode_feature_vector(&vec![5]);
    b.push(0xff);
    assert_eq!(decode_feature_vector(&b), Ok(vec![5]));
}

#[test]
fn rows_convert_to_elements_in_order() {
    let rows = vec![
        FeatureRow { id: UUID(10), feature_vector: encode_feature_vector(&vec![1, 2]) },
        FeatureRow { id: UUID(11), feature_vector: encode_feature_vector(&vec![3]) },
    ];
    let els = convert_rows_to_hnsw_elements(&rows).unwrap();
    assert_eq!(els.len(), 2);
    assert_eq!(els[0].id, UUID(10));
    assert_eq!(els[0].feature_vector, vec![1, 2]);
    assert_eq!(els[1].id, UUID(11));
    assert_eq!(els[1].feature_vector, vec![3]);
}

#[test]
fn rows_with_a_bad_blob_fail() {
    let rows = vec![
        FeatureRow { id: UUID(10), feature_vector: encode_feature_vector(&vec![1, 2]) },
        FeatureRow { id: UUID(11), feature_vector: vec![9, 0, 0, 0, 0, 0, 0, 0] },
    ];
    assert!(matches!(convert_rows_to_hnsw_elements(&rows), Err(BlobError::Truncated)));
}
