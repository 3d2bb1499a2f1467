//! Planning of the startup scan: which of the regular files found under the
//! watched roots are new to the catalog and must be ingested.

use vstd::prelude::*;

verus! {

/// The character sequences of a list of strings.
pub open spec fn views(s: Seq<String>) -> Seq<Seq<char>> {
    s.map_values(|x: String| x@)
}

/// The paths of `walked`, in order, that `known` does not hold, each once.
pub open spec fn new_paths(walked: Seq<Seq<char>>, known: Seq<Seq<char>>) -> Seq<Seq<char>>
    decreases walked.len(),
{
    if walked.len() == 0 {
        Seq::empty()
    } else {
        let rest = new_paths(walked.drop_last(), known);
        let p = walked.last();
        if known.contains(p) || rest.contains(p) {
            rest
        } else {
            rest.push(p)
        }
    }
}

fn contains_path(v: &Vec<String>, p: &String) -> (r: bool)
    ensures
        r == views(v@).contains(p@),
{
    let mut i: usize = 0;
    while i < v.len()
        invariant
            0 <= i <= v@.len(),
            forall|j: int| 0 <= j < i ==> v@[j]@ != p@,
        decreases v@.len() - i,
    {
        if v[i] == *p {
            assert(views(v@)[i as int] == p@);
            return true;
        }
        i = i + 1;
    }
    false
}

/// The files to ingest: the walked paths that the catalog does not know, in
/// walk order and without repeats.
pub fn files_to_ingest(walked: &Vec<String>, known: &Vec<String>) -> (r: Vec<String>)
    ensures
        views(r@) == new_paths(views(walked@), views(known@)),
{
    let mut out: Vec<String> = Vec::new();
    let mut i: usize = 0;
    while i < walked.len()
        invariant
            0 <= i <= walked@.len(),
            views(out@) == new_paths(views(walked@.subrange(0, i as int)), views(known@)),
        decreases walked@.len() - i,
    {
        assert(views(walked@.subrange(0, i + 1)).drop_last() =~= views(walked@.subrange(0, i as int)));
        let ghost before = out@;
        if !contains_path(known, &walked[i]) && !contains_path(&out, &walked[i]) {
            out.push(walked[i].clone());
            assert(views(out@) =~= views(before).push(walked@[i as int]@));
        }
        i = i + 1;
    }
    assert(walked@.subrange(0, walked@.len() as int) =~= walked@);
    out
}

proof fn lemma_new_paths_cover(walked: Seq<Seq<char>>, known: Seq<Seq<char>>)
    ensures
        forall|i: int|
            0 <= i < walked.len() ==> known.contains(#[trigger] walked[i]) || new_paths(
                walked,
                known,
            ).contains(walked[i]),
    decreases walked.len(),
{
    if walked.len() > 0 {
        let w = walked.drop_last();
        lemma_new_paths_cover(w, known);
        let rest = new_paths(w, known);
        let n = new_paths(walked, known);
        assert forall|i: int| 0 <= i < walked.len() implies known.contains(#[trigger] walked[i])
            || n.contains(walked[i]) by {
            if i < walked.len() - 1 {
                assert(walked[i] == w[i]);
                if rest.contains(w[i]) {
                    let k = choose|k: int| 0 <= k < rest.len() && rest[k] == w[i];
                    assert(n[k] == rest[k]);
                }
            } else if !known.contains(walked[i]) && !rest.contains(walked[i]) {
                assert(n[n.len() - 1] == walked[i]);
            }
        }
    }
}

proof fn lemma_new_paths_empty(walked: Seq<Seq<char>>, known: Seq<Seq<char>>)
    requires
        forall|i: int| 0 <= i < walked.len() ==> known.contains(#[trigger] walked[i]),
    ensures
        new_paths(walked, known).len() == 0,
    decreases walked.len(),
{
    if walked.len() > 0 {
        let w = walked.drop_last();
        assert forall|i: int| 0 <= i < w.len() implies known.contains(#[trigger] w[i]) by {
            assert(w[i] == walked[i]);
        }
        lemma_new_paths_empty(w, known);
        assert(known.contains(walked[walked.len() - 1]));
    }
}

/// A second scan of an unchanged filesystem finds nothing new: once the
/// files that a scan queued are in the catalog, the same walk queues none.
pub proof fn lemma_reconcile_idempotent(walked: Seq<Seq<char>>, known: Seq<Seq<char>>)
    ensures
        new_paths(walked, known + new_paths(walked, known)).len() == 0,
{
    let n = new_paths(walked, known);
    let k2 = known + n;
    lemma_new_paths_cover(walked, known);
    assert forall|i: int| 0 <= i < walked.len() implies k2.contains(#[trigger] walked[i]) by {
        if known.contains(walked[i]) {
            let j = choose|j: int| 0 <= j < known.len() && known[j] == walked[i];
            assert(k2[j] == walked[i]);
        } else {
            let j = choose|j: int| 0 <= j < n.len() && n[j] == walked[i];
            assert(k2[known.len() + j] == walked[i]);
        }
    }
    lemma_new_paths_empty(walked, k2);
}

} // verus!
