use rover::ann::{distance_key, effective_ef, key_bits, HnswElement, HnswIdMap};
use rover::uuid::UUID;

fn el(id: u128) -> HnswElement {
    HnswElement { feature_vector: vec![0; 4], id: UUID(id) }
}

fn key(d: f32) -> u32 {
    distance_key(d.to_bits())
}

#[test]
fn assign_gives_dense_indices_in_batch_order() {
    let mut m = HnswIdMap::new();
    assert_eq!(m.current_id(), 0);
    assert_eq!(m.assign(&vec![el(7), el(8)]), 0);
    assert_eq!(m.assign(&vec![el(9)]), 2);
    assert_eq!(m.current_id(), 3);
    assert_eq!(m.file_id(0), Some(UUID(7)));
    assert_eq!(m.file_id(1), Some(UUID(8)));
    assert_eq!(m.file_id(2), Some(UUID(9)));
    assert_eq!(m.file_id(3), None);
}

#[test]
fn distance_keys_follow_float_order() {
    let ds = [-1.5f32, -0.0, 0.0, 1.0e-6, 0.5, 0.79, 0.85, 1.0, 2.0];
    for w in ds.windows(2) {
        assert!(key(w[0]) < key(w[1]), "{} {}", w[0], w[1]);
    }
    for d in ds {
        assert_eq!(f32::from_bits(key_bits(key(d))).to_bits(), d.to_bits());
    }
}

#[test]
fn search_results_are_sorted_below_threshold() {
    let mut m = HnswIdMap::new();
    m.assign(&vec![el(1), el(2), el(3), el(4)]);
    let hits = vec![(2usize, key(0.9)), (0, key(0.3)), (3, key(1.2)), (1, key(0.1))];
    let r = m.resolve_hits(&hits, 10, key(1.0));
    let ids: Vec<UUID> = r.iter().map(|h| h.0).collect();
    assert_eq!(ids, vec![UUID(2), UUID(1), UUID(3)]);
    let ds: Vec<f32> = r.iter().map(|h| f32::from_bits(key_bits(h.1))).collect();
    assert_eq!(ds, vec![0.1, 0.3, 0.9]);
}

#[test]
fn search_threshold_is_strict() {
    let mut m = HnswIdMap::new();
    m.assign(&vec![el(1), el(2)]);
    let hits = vec![(0usize, key(0.5)), (1, key(0.7))];
    let r = m.resolve_hits(&hits, 5, key(0.7));
    assert_eq!(r, vec![(UUID(1), key(0.5))]);
}

#[test]
fn search_keeps_at_most_k() {
    let mut m = HnswIdMap::new();
    m.assign(&vec![el(1), el(2), el(3)]);
    let hits = vec![(0usize, key(0.6)), (1, key(0.2)), (2, key(0.4))];
    let r = m.resolve_hits(&hits, 2, key(1.0));
    assert_eq!(r, vec![(UUID(2), key(0.2)), (UUID(3), key(0.4))]);
}

#[test]
fn search_with_k_zero_is_empty() {
    let mut m = HnswIdMap::new();
    m.assign(&vec![el(1)]);
    let r = m.resolve_hits(&vec![(0usize, key(0.1))], 0, key(1.0));
    assert!(r.is_empty());
}

#[test]
fn search_drops_unknown_indices() {
    let mut m = HnswIdMap::new();
    m.assign(&vec![el(1)]);
    let r = m.resolve_hits(&vec![(5usize, key(0.1)), (0, key(0.2))], 3, key(1.0));
    assert_eq!(r, vec![(UUID(1), key(0.2))]);
}

#[test]
fn search_equal_distances_keep_hit_order() {
    let mut m = HnswIdMap::new();
    m.assign(&vec![el(1), el(2), el(3)]);
    let hits = vec![(2usize, key(0.5)), (0, key(0.5)), (1, key(0.1))];
    let r = m.resolve_hits(&hits, 3, key(1.0));
    assert_eq!(r, vec![(UUID(2), key(0.1)), (UUID(3), key(0.5)), (UUID(1), key(0.5))]);
}

#[test]
fn zero_distance_key_bound() {
    assert_eq!(key(0.0), 0x8000_0000);
    assert!(key(-0.0) < 0x8000_0000);
    assert!(key(1.0e-30) > 0x8000_0000);
}

#[test]
fn ef_is_raised_to_k() {
    assert_eq!(effective_ef(10, 50), 50);
    assert_eq!(effective_ef(64, 2), 64);
    assert_eq!(effective_ef(0, 0), 0);
}

#[test]
fn ingest_and_query_ranks_closer_image_first() {
    let mut m = HnswIdMap::new();
    let duck = 0xd0c;
    let cat = 0xca7;
    m.assign(&vec![el(duck), el(cat)]);
    let hits = vec![(1usize, key(0.82)), (0, key(0.74))];
    let r = m.resolve_hits(&hits, 2, key(1.0));
    assert_eq!(r.len(), 2);
    assert_eq!(r[0].0, UUID(duck));
    assert_eq!(r[1].0, UUID(cat));
    assert!(r.iter().all(|h| f32::from_bits(key_bits(h.1)) < 1.0));
}
