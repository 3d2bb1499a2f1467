//! Bookkeeping around the approximate nearest-neighbour index. The graph
//! itself works on single-precision vectors; this module owns what is exact:
//! the dense index assigned to each inserted vector and the file it stands
//! for, and the treatment of raw hits (mapping, distance threshold, order,
//! count). Distances travel as order keys of their bit patterns.

use vstd::prelude::*;
use crate::codec::{BlobError, blob_is_valid, blob_values, decode_feature_vector};
use crate::uuid::UUID;

verus! {

/// The maximum number of links from one point to others.
pub const DEFAULT_MAX_NB_CONNECTION: usize = 64;

/// The maximum number of layers in the graph; at most 16.
pub const DEFAULT_NB_LAYER: usize = 16;

/// The width of the search for neighbours during insertion.
pub const DEFAULT_EF_CONSTRUCTION: usize = 400;

/// The initial capacity hint of the graph.
pub const DEFAULT_MAX_ELEMS: usize = 10000;

/// A feature vector, as the bit patterns of its components, and its file.
#[derive(Clone, Debug)]
pub struct HnswElement {
    pub feature_vector: Vec<u32>,
    pub id: UUID,
}

/// A stored feature row: the file's identifier and its feature blob.
#[derive(Clone, Debug)]
pub struct FeatureRow {
    pub id: UUID,
    pub feature_vector: Vec<u8>,
}

/// The order key of a single-precision bit pattern. For values that are not
/// NaN, keys compare as unsigned integers in the order of the values they
/// stand for (with -0 just below +0).
pub open spec fn order_key(bits: u32) -> u32 {
    if bits & 0x8000_0000u32 != 0 {
        !bits
    } else {
        bits | 0x8000_0000u32
    }
}

/// The order key of a distance, given as its bit pattern.
pub fn distance_key(bits: u32) -> (r: u32)
    ensures
        r == order_key(bits),
{
    if bits & 0x8000_0000u32 != 0 {
        !bits
    } else {
        bits | 0x8000_0000u32
    }
}

/// The bit pattern whose order key is `key`.
pub fn key_bits(key: u32) -> (r: u32)
    ensures
        order_key(r) == key,
{
    if key & 0x8000_0000u32 != 0 {
        let r = key & 0x7fff_ffffu32;
        assert(order_key(r) == key) by (bit_vector)
            requires
                r == key & 0x7fff_ffffu32,
                key & 0x8000_0000u32 != 0,
        ;
        r
    } else {
        let r = !key;
        assert(order_key(r) == key) by (bit_vector)
            requires
                r == !key,
                key & 0x8000_0000u32 == 0,
        ;
        r
    }
}

/// The search width actually used: never below the number of neighbours
/// asked for.
pub fn effective_ef(ef: usize, k: usize) -> (r: usize)
    ensures
        r == if ef < k { k } else { ef },
        r >= k,
        r >= ef,
{
    if ef < k {
        k
    } else {
        ef
    }
}

/// The hits, in order, that name a known dense index and lie strictly below
/// the threshold, each with its file.
pub open spec fn qualifying_hits(ids: Seq<UUID>, hits: Seq<(usize, u32)>, threshold: u32) -> Seq<
    (UUID, u32),
>
    decreases hits.len(),
{
    if hits.len() == 0 {
        Seq::empty()
    } else {
        let rest = qualifying_hits(ids, hits.drop_last(), threshold);
        let h = hits.last();
        if h.0 < ids.len() && h.1 < threshold {
            rest.push((ids[h.0 as int], h.1))
        } else {
            rest
        }
    }
}

/// Whether pairs are in ascending order of key.
pub open spec fn sorted_by_key(s: Seq<(UUID, u32)>) -> bool {
    forall|i: int, j: int| 0 <= i < j < s.len() ==> s[i].1 <= s[j].1
}

/// Where `key` goes in `s`: after every leading pair whose key is not above it.
pub open spec fn insert_pos(s: Seq<(UUID, u32)>, key: u32) -> nat
    decreases s.len(),
{
    if s.len() == 0 {
        0
    } else if key < s[0].1 {
        0
    } else {
        1 + insert_pos(s.drop_first(), key)
    }
}

/// Stable sort by key: each pair goes after the pairs with an equal key that
/// came before it.
pub open spec fn sort_by_key(s: Seq<(UUID, u32)>) -> Seq<(UUID, u32)>
    decreases s.len(),
{
    if s.len() == 0 {
        Seq::empty()
    } else {
        let rest = sort_by_key(s.drop_last());
        rest.insert(insert_pos(rest, s.last().1) as int, s.last())
    }
}

/// What a search returns from raw hits: the qualifying hits, sorted by
/// distance, at most `k` of them.
pub open spec fn resolved_hits(ids: Seq<UUID>, hits: Seq<(usize, u32)>, k: nat, threshold: u32) -> Seq<
    (UUID, u32),
> {
    let s = sort_by_key(qualifying_hits(ids, hits, threshold));
    if s.len() <= k {
        s
    } else {
        s.subrange(0, k as int)
    }
}

proof fn lemma_insert_pos_bounds(s: Seq<(UUID, u32)>, key: u32)
    ensures
        insert_pos(s, key) <= s.len(),
        forall|i: int| 0 <= i < insert_pos(s, key) ==> s[i].1 <= key,
        sorted_by_key(s) ==> forall|i: int|
            insert_pos(s, key) <= i < s.len() ==> key < #[trigger] s[i].1,
    decreases s.len(),
{
    if s.len() > 0 {
        lemma_insert_pos_bounds(s.drop_first(), key);
        let p = insert_pos(s, key);
        assert forall|i: int| 0 <= i < p implies s[i].1 <= key by {
            if i > 0 {
                assert(s[i] == s.drop_first()[i - 1]);
            }
        }
        if sorted_by_key(s) {
            assert(sorted_by_key(s.drop_first()));
            assert forall|i: int| p <= i < s.len() implies key < #[trigger] s[i].1 by {
                if key >= s[0].1 {
                    assert(s[i] == s.drop_first()[i - 1]);
                }
            }
        }
    }
}

/// In a sorted sequence, the first index whose key is above `key` is the
/// place where `key` goes.
proof fn lemma_insert_pos_unique(s: Seq<(UUID, u32)>, key: u32, p: int)
    requires
        0 <= p <= s.len(),
        forall|i: int| 0 <= i < p ==> s[i].1 <= key,
        p < s.len() ==> key < s[p].1,
    ensures
        insert_pos(s, key) == p,
    decreases s.len(),
{
    if s.len() > 0 && p > 0 {
        let t = s.drop_first();
        assert forall|i: int| 0 <= i < p - 1 implies t[i].1 <= key by {
            assert(t[i] == s[i + 1]);
        }
        if p < s.len() {
            assert(t[p - 1] == s[p]);
        }
        lemma_insert_pos_unique(t, key, p - 1);
    }
}

proof fn lemma_insert_sorted(s: Seq<(UUID, u32)>, x: (UUID, u32))
    requires
        sorted_by_key(s),
    ensures
        sorted_by_key(s.insert(insert_pos(s, x.1) as int, x)),
{
    lemma_insert_pos_bounds(s, x.1);
    let p = insert_pos(s, x.1) as int;
    let t = s.insert(p, x);
    assert forall|i: int, j: int| 0 <= i < j < t.len() implies t[i].1 <= t[j].1 by {
        if i < p && j > p {
            assert(t[i] == s[i] && t[j] == s[j - 1]);
        } else if i < p && j == p {
            assert(t[i] == s[i]);
        } else if i == p && j > p {
            assert(t[j] == s[j - 1]);
        } else if i > p {
            assert(t[i] == s[i - 1] && t[j] == s[j - 1]);
        } else {
            assert(t[i] == s[i] && t[j] == s[j]);
        }
    }
}

proof fn lemma_sort_by_key_sorted(s: Seq<(UUID, u32)>)
    ensures
        sorted_by_key(sort_by_key(s)),
        sort_by_key(s).len() == s.len(),
    decreases s.len(),
{
    if s.len() > 0 {
        lemma_sort_by_key_sorted(s.drop_last());
        let rest = sort_by_key(s.drop_last());
        lemma_insert_sorted(rest, s.last());
        lemma_insert_pos_bounds(rest, s.last().1);
    }
}

proof fn lemma_qualifying_below(ids: Seq<UUID>, hits: Seq<(usize, u32)>, threshold: u32)
    ensures
        forall|i: int|
            0 <= i < qualifying_hits(ids, hits, threshold).len() ==> #[trigger] qualifying_hits(
                ids,
                hits,
                threshold,
            )[i].1 < threshold,
    decreases hits.len(),
{
    if hits.len() > 0 {
        lemma_qualifying_below(ids, hits.drop_last(), threshold);
        let rest = qualifying_hits(ids, hits.drop_last(), threshold);
        let q = qualifying_hits(ids, hits, threshold);
        assert forall|i: int| 0 <= i < q.len() implies #[trigger] q[i].1 < threshold by {
            if i < rest.len() {
                assert(q[i] == rest[i]);
            }
        }
    }
}

proof fn lemma_sort_keeps_elements(s: Seq<(UUID, u32)>)
    ensures
        forall|i: int|
            0 <= i < sort_by_key(s).len() ==> s.contains(#[trigger] sort_by_key(s)[i]),
    decreases s.len(),
{
    if s.len() > 0 {
        lemma_sort_keeps_elements(s.drop_last());
        let rest = sort_by_key(s.drop_last());
        lemma_insert_pos_bounds(rest, s.last().1);
        let p = insert_pos(rest, s.last().1) as int;
        let t = rest.insert(p, s.last());
        assert forall|i: int| 0 <= i < t.len() implies s.contains(#[trigger] t[i]) by {
            if i == p {
                assert(s[s.len() - 1] == t[i]);
            } else {
                let j = if i < p { i } else { i - 1 };
                assert(t[i] == rest[j]);
                assert(s.drop_last().contains(rest[j]));
                let w = choose|w: int| 0 <= w < s.drop_last().len() && s.drop_last()[w] == rest[j];
                assert(s[w] == t[i]);
            }
        }
    }
}

proof fn lemma_sort_by_key_permutes(s: Seq<(UUID, u32)>)
    ensures
        sort_by_key(s).to_multiset() == s.to_multiset(),
    decreases s.len(),
{
    if s.len() > 0 {
        lemma_sort_by_key_permutes(s.drop_last());
        let rest = sort_by_key(s.drop_last());
        lemma_insert_pos_bounds(rest, s.last().1);
        vstd::seq_lib::to_multiset_insert(rest, insert_pos(rest, s.last().1) as int, s.last());
        s.drop_last().to_multiset_ensures();
        assert(s.drop_last().push(s.last()) =~= s);
        assert(s.to_multiset() == s.drop_last().to_multiset().insert(s.last()));
    } else {
        assert(s =~= Seq::<(UUID, u32)>::empty());
    }
}

proof fn lemma_qualifying_at_least(ids: Seq<UUID>, hits: Seq<(usize, u32)>, threshold: u32, lo: u32)
    requires
        forall|j: int| 0 <= j < hits.len() ==> #[trigger] hits[j].1 >= lo,
    ensures
        forall|i: int|
            0 <= i < qualifying_hits(ids, hits, threshold).len() ==> #[trigger] qualifying_hits(
                ids,
                hits,
                threshold,
            )[i].1 >= lo,
    decreases hits.len(),
{
    if hits.len() > 0 {
        let h = hits.drop_last();
        assert forall|j: int| 0 <= j < h.len() implies #[trigger] h[j].1 >= lo by {
            assert(h[j] == hits[j]);
        }
        lemma_qualifying_at_least(ids, h, threshold, lo);
        let rest = qualifying_hits(ids, h, threshold);
        let q = qualifying_hits(ids, hits, threshold);
        assert(hits[hits.len() - 1].1 >= lo);
        assert forall|i: int| 0 <= i < q.len() implies #[trigger] q[i].1 >= lo by {
            if i < rest.len() {
                assert(q[i] == rest[i]);
            }
        }
    }
}

/// A search gives no distance below the smallest raw distance: when every
/// raw hit lies at or above `lo` (with `lo` the key of +0.0, `0x8000_0000`:
/// every raw distance is at least zero), so does every returned hit.
pub proof fn lemma_resolved_hits_at_least(
    ids: Seq<UUID>,
    hits: Seq<(usize, u32)>,
    k: nat,
    threshold: u32,
    lo: u32,
)
    requires
        forall|j: int| 0 <= j < hits.len() ==> #[trigger] hits[j].1 >= lo,
    ensures
        forall|i: int|
            0 <= i < resolved_hits(ids, hits, k, threshold).len() ==> #[trigger] resolved_hits(
                ids,
                hits,
                k,
                threshold,
            )[i].1 >= lo,
{
    let q = qualifying_hits(ids, hits, threshold);
    lemma_qualifying_at_least(ids, hits, threshold, lo);
    lemma_sort_keeps_elements(q);
    lemma_sort_by_key_sorted(q);
    let s = sort_by_key(q);
    let r = resolved_hits(ids, hits, k, threshold);
    assert forall|i: int| 0 <= i < r.len() implies #[trigger] r[i].1 >= lo by {
        assert(r[i] == s[i]);
        assert(q.contains(s[i]));
    }
}

/// A search returns the nearest qualifying hits: the qualifying hits
/// (known index, distance below the threshold), rearranged in ascending
/// order of distance, and cut after the first `k`.
pub proof fn lemma_resolved_hits_are_nearest(
    ids: Seq<UUID>,
    hits: Seq<(usize, u32)>,
    k: nat,
    threshold: u32,
)
    ensures
        sort_by_key(qualifying_hits(ids, hits, threshold)).to_multiset() == qualifying_hits(
            ids,
            hits,
            threshold,
        ).to_multiset(),
        sorted_by_key(sort_by_key(qualifying_hits(ids, hits, threshold))),
        resolved_hits(ids, hits, k, threshold) == sort_by_key(qualifying_hits(ids, hits, threshold)).take(
            if k < qualifying_hits(ids, hits, threshold).len() {
                k as int
            } else {
                qualifying_hits(ids, hits, threshold).len() as int
            },
        ),
{
    let q = qualifying_hits(ids, hits, threshold);
    lemma_sort_by_key_permutes(q);
    lemma_sort_by_key_sorted(q);
    let s = sort_by_key(q);
    if s.len() <= k {
        assert(s.take(s.len() as int) =~= s);
    }
}

/// Every hit that a search returns lies strictly below the distance
/// threshold, the hits come in ascending order of distance, and there are
/// at most `k` of them (none when `k` is zero).
pub proof fn lemma_resolved_hits_sorted_below(
    ids: Seq<UUID>,
    hits: Seq<(usize, u32)>,
    k: nat,
    threshold: u32,
)
    ensures
        sorted_by_key(resolved_hits(ids, hits, k, threshold)),
        forall|i: int|
            0 <= i < resolved_hits(ids, hits, k, threshold).len() ==> #[trigger] resolved_hits(
                ids,
                hits,
                k,
                threshold,
            )[i].1 < threshold,
        resolved_hits(ids, hits, k, threshold).len() <= k,
{
    let q = qualifying_hits(ids, hits, threshold);
    lemma_sort_by_key_sorted(q);
    lemma_sort_keeps_elements(q);
    lemma_qualifying_below(ids, hits, threshold);
    let s = sort_by_key(q);
    let r = resolved_hits(ids, hits, k, threshold);
    assert forall|i: int| 0 <= i < r.len() implies #[trigger] r[i].1 < threshold by {
        assert(r[i] == s[i]);
        assert(q.contains(s[i]));
    }
}

/// The dense indices of the nearest-neighbour graph and the files they
/// stand for. Index `u` is the `u`-th vector ever inserted; indices are
/// assigned in insertion order and never reused.
pub struct HnswIdMap {
    ids: Vec<UUID>,
}

impl View for HnswIdMap {
    type V = Seq<UUID>;

    closed spec fn view(&self) -> Seq<UUID> {
        self.ids@
    }
}

impl HnswIdMap {
    /// A map with no index assigned.
    pub fn new() -> (r: HnswIdMap)
        ensures
            r@ == Seq::<UUID>::empty(),
    {
        HnswIdMap { ids: Vec::new() }
    }

    /// The next index to be assigned, which is the number assigned so far.
    pub fn current_id(&self) -> (r: usize)
        ensures
            r == self@.len(),
    {
        self.ids.len()
    }

    /// The file that index `u` stands for, if `u` was assigned.
    pub fn file_id(&self, u: usize) -> (r: Option<UUID>)
        ensures
            u < self@.len() ==> r == Some(self@[u as int]),
            u >= self@.len() ==> r is None,
    {
        if u < self.ids.len() {
            Some(self.ids[u])
        } else {
            None
        }
    }

    /// Assigns fresh indices to a batch, in batch order, and returns the
    /// first of them: element `i` of the batch gets index `first + i`.
    pub fn assign(&mut self, batch: &Vec<HnswElement>) -> (first: usize)
        requires
            old(self)@.len() + batch@.len() <= usize::MAX,
        ensures
            first == old(self)@.len(),
            final(self)@.len() == old(self)@.len() + batch@.len(),
            final(self)@.subrange(0, first as int) == old(self)@,
            forall|i: int| 0 <= i < batch@.len() ==> #[trigger] final(self)@[first + i] == batch@[i].id,
    {
        let first = self.ids.len();
        let mut i: usize = 0;
        while i < batch.len()
            invariant
                0 <= i <= batch@.len(),
                first == old(self)@.len(),
                self.ids@.len() == first + i,
                self.ids@.subrange(0, first as int) == old(self)@,
                forall|j: int| 0 <= j < i ==> #[trigger] self.ids@[first + j] == batch@[j].id,
            decreases batch@.len() - i,
        {
            self.ids.push(batch[i].id);
            assert(self.ids@.subrange(0, first as int) =~= old(self)@);
            i = i + 1;
        }
        first
    }

    /// Turns raw hits `(index, distance key)` into the search result: hits
    /// whose index was never assigned or whose key is not below
    /// `threshold` are dropped, the rest are mapped to their files, sorted by
    /// key (stable), and cut to at most `k`.
    pub fn resolve_hits(&self, hits: &Vec<(usize, u32)>, k: usize, threshold: u32) -> (r: Vec<
        (UUID, u32),
    >)
        ensures
            r@ == resolved_hits(self@, hits@, k as nat, threshold),
            k == 0 ==> r@.len() == 0,
    {
        let mut acc: Vec<(UUID, u32)> = Vec::new();
        let mut i: usize = 0;
        while i < hits.len()
            invariant
                0 <= i <= hits@.len(),
                acc@ == sort_by_key(qualifying_hits(self@, hits@.subrange(0, i as int), threshold)),
            decreases hits@.len() - i,
        {
            let ghost before = hits@.subrange(0, i as int);
            let ghost after = hits@.subrange(0, i + 1);
            assert(after.drop_last() =~= before);
            let (u, key) = hits[i];
            proof {
                lemma_sort_by_key_sorted(qualifying_hits(self@, before, threshold));
            }
            if u < self.ids.len() && key < threshold {
                let x = (self.ids[u], key);
                let mut p: usize = 0;
                while p < acc.len() && acc[p].1 <= key
                    invariant
                        0 <= p <= acc@.len(),
                        forall|j: int| 0 <= j < p ==> acc@[j].1 <= key,
                    decreases acc@.len() - p,
                {
                    p = p + 1;
                }
                proof {
                    lemma_insert_pos_unique(acc@, key, p as int);
                    assert(qualifying_hits(self@, after, threshold) == qualifying_hits(
                        self@,
                        before,
                        threshold,
                    ).push(x));
                    let q = qualifying_hits(self@, after, threshold);
                    assert(q.drop_last() =~= qualifying_hits(self@, before, threshold));
                }
                acc.insert(p, x);
            } else {
                assert(qualifying_hits(self@, after, threshold) == qualifying_hits(
                    self@,
                    before,
                    threshold,
                ));
            }
            i = i + 1;
        }
        assert(hits@.subrange(0, hits@.len() as int) =~= hits@);
        acc.truncate(k);
        acc
    }
}

/// Decodes stored feature rows into elements for the graph, in row order.
/// Fails on the first blob that cannot be read.
pub fn convert_rows_to_hnsw_elements(rows: &Vec<FeatureRow>) -> (r: Result<Vec<HnswElement>, BlobError>)
    ensures
        r is Ok <==> forall|i: int| 0 <= i < rows@.len() ==> blob_is_valid(#[trigger] rows@[i].feature_vector@),
        r matches Ok(els) ==> els@.len() == rows@.len() && forall|i: int|
            0 <= i < rows@.len() ==> #[trigger] els@[i].id == rows@[i].id && els@[i].feature_vector@
                == blob_values(rows@[i].feature_vector@),
{
    let mut out: Vec<HnswElement> = Vec::new();
    let mut i: usize = 0;
    while i < rows.len()
        invariant
            0 <= i <= rows@.len(),
            out@.len() == i,
            forall|j: int| 0 <= j < i ==> blob_is_valid(#[trigger] rows@[j].feature_vector@),
            forall|j: int|
                0 <= j < i ==> #[trigger] out@[j].id == rows@[j].id && out@[j].feature_vector@
                    == blob_values(rows@[j].feature_vector@),
        decreases rows@.len() - i,
    {
        match decode_feature_vector(rows[i].feature_vector.as_slice()) {
            Ok(v) => {
                out.push(HnswElement { feature_vector: v, id: rows[i].id });
            },
            Err(e) => {
                return Err(e);
            },
        }
        i = i + 1;
    }
    Ok(out)
}

} // verus!
