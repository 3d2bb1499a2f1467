use rover::ann::{convert_rows_to_hnsw_elements, distance_key, HnswIdMap};
use rover::codec::{decode_feature_vector, encode_feature_vector};
use rover::ingest::{
    check_batch, chunk_bounds, feature_rows, split_by_outcome, split_rows, EncodeError, INGEST_CHUNK_SIZE,
};
use rover::preprocessing::FEATURE_VECTOR_LENGTH;
use rover::uuid::UUID;

#[test]
fn empty_batch_is_refused() {
    assert_eq!(check_batch(0), Err(EncodeError::EmptyBatch));
    assert_eq!(check_batch(3), Ok(()));
    assert_eq!(split_rows(0, &vec![]), Err(EncodeError::EmptyBatch));
}

#[test]
fn output_is_cut_into_rows() {
    let flat: Vec<u32> = (0..(2 * FEATURE_VECTOR_LENGTH) as u32).collect();
    let rows = split_rows(2, &flat).unwrap();
    assert_eq!(rows.len(), 2);
    assert_eq!(rows[0], flat[..FEATURE_VECTOR_LENGTH].to_vec());
    assert_eq!(rows[1], flat[FEATURE_VECTOR_LENGTH..].to_vec());
}

#[test]
fn wrong_output_shape_is_refused() {
    let flat: Vec<u32> = vec![0; FEATURE_VECTOR_LENGTH + 1];
    assert_eq!(split_rows(1, &flat), Err(EncodeError::ShapeMismatch));
    assert_eq!(split_rows(2, &vec![0; FEATURE_VECTOR_LENGTH]), Err(EncodeError::ShapeMismatch));
}

#[test]
fn chunks_of_thirty_two() {
    assert_eq!(INGEST_CHUNK_SIZE, 32);
    assert!(chunk_bounds(0).is_empty());
    assert_eq!(chunk_bounds(1), vec![(0, 1)]);
    assert_eq!(chunk_bounds(32), vec![(0, 32)]);
    assert_eq!(chunk_bounds(70), vec![(0, 32), (32, 64), (64, 70)]);
}

#[test]
fn failed_loads_are_set_apart() {
    let ids = vec![UUID(1), UUID(2), UUID(3)];
    let (good, bad) = split_by_outcome(&ids, &vec![true, false, true]);
    assert_eq!(good, vec![UUID(1), UUID(3)]);
    assert_eq!(bad, vec![UUID(2)]);
}

#[test]
fn broken_file_gets_no_feature_row() {
    let ids = vec![UUID(1), UUID(2)];
    let (good, bad) = split_by_outcome(&ids, &vec![false, true]);
    assert_eq!(bad, vec![UUID(1)]);
    let rows = feature_rows(&good, &vec![vec![0x3f80_0000]]).unwrap();
    assert_eq!(rows.len(), 1);
    assert_eq!(rows[0].id, UUID(2));
    assert!(rows.iter().all(|r| r.id != UUID(1)));
}

#[test]
fn vectors_pair_with_loaded_files() {
    let ids = vec![UUID(4), UUID(5)];
    let rows = feature_rows(&ids, &vec![vec![1, 2], vec![3, 4]]).unwrap();
    assert_eq!(rows[0].id, UUID(4));
    assert_eq!(decode_feature_vector(&rows[0].feature_vector), Ok(vec![1, 2]));
    assert_eq!(rows[1].id, UUID(5));
    assert_eq!(rows[1].feature_vector, encode_feature_vector(&vec![3, 4]));
    assert_eq!(feature_rows(&ids, &vec![vec![1]]).err(), Some(EncodeError::ShapeMismatch));
}

#[test]
fn rebuild_gives_same_results() {
    let ids = vec![UUID(1), UUID(2), UUID(3)];
    let vectors = vec![vec![10], vec![20], vec![30]];
    let rows = feature_rows(&ids, &vectors).unwrap();
    let hits = vec![(2usize, distance_key(0.5f32.to_bits())), (0, distance_key(0.2f32.to_bits()))];
    let threshold = distance_key(1.0f32.to_bits());

    let mut first = HnswIdMap::new();
    first.assign(&convert_rows_to_hnsw_elements(&rows).unwrap());
    let before = first.resolve_hits(&hits, 3, threshold);

    let mut rebuilt = HnswIdMap::new();
    let elements = convert_rows_to_hnsw_elements(&rows).unwrap();
    assert_eq!(elements.iter().map(|e| e.feature_vector.clone()).collect::<Vec<_>>(), vectors);
    rebuilt.assign(&elements);
    let after = rebuilt.resolve_hits(&hits, 3, threshold);
    assert_eq!(before, after);
    assert_eq!(after.iter().map(|h| h.0).collect::<Vec<_>>(), vec![UUID(1), UUID(3)]);
}
