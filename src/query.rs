//! The query service's decisions: which work a query needs, how folder
//! prefixes are normalized and matched, and how the hits of a search are
//! filtered against the catalog and the prefixes.

use vstd::prelude::*;
use vstd::string::*;
use crate::uuid::UUID;

verus! {

/// Whether `p` starts `s`.
pub open spec fn is_prefix_of(p: Seq<char>, s: Seq<char>) -> bool {
    p.len() <= s.len() && s.subrange(0, p.len() as int) == p
}

/// Whether `p` ends `s`.
pub open spec fn is_suffix_of(p: Seq<char>, s: Seq<char>) -> bool {
    p.len() <= s.len() && s.subrange(s.len() - p.len(), s.len() as int) == p
}

/// A folder prefix ending in the separator, so that `/foo` does not match
/// `/foobar/...`.
pub open spec fn normalized_prefix(p: Seq<char>, sep: Seq<char>) -> Seq<char> {
    if is_suffix_of(sep, p) {
        p
    } else {
        p + sep
    }
}

/// Whether `path` starts with one of `prefixes`.
pub open spec fn matches_any_prefix(path: Seq<char>, prefixes: Seq<String>) -> bool {
    exists|i: int| 0 <= i < prefixes.len() && is_prefix_of(#[trigger] prefixes[i]@, path)
}

/// The identifiers of `files`, in order, whose path starts with one of
/// `prefixes`.
pub open spec fn files_matching(files: Seq<(UUID, String)>, prefixes: Seq<String>) -> Seq<UUID>
    decreases files.len(),
{
    if files.len() == 0 {
        Seq::empty()
    } else {
        let rest = files_matching(files.drop_last(), prefixes);
        if matches_any_prefix(files.last().1@, prefixes) {
            rest.push(files.last().0)
        } else {
            rest
        }
    }
}

/// The elements of `s`, in order, that `keep` contains.
pub open spec fn retain_in(s: Seq<UUID>, keep: Seq<UUID>) -> Seq<UUID>
    decreases s.len(),
{
    if s.len() == 0 {
        Seq::empty()
    } else {
        let rest = retain_in(s.drop_last(), keep);
        if keep.contains(s.last()) {
            rest.push(s.last())
        } else {
            rest
        }
    }
}

/// Whether `path` starts with `prefix`.
pub fn has_prefix(path: &str, prefix: &str) -> (r: bool)
    ensures
        r == is_prefix_of(prefix@, path@),
{
    let n = path.unicode_len();
    let m = prefix.unicode_len();
    if m > n {
        return false;
    }
    let mut i: usize = 0;
    while i < m
        invariant
            m == prefix@.len(),
            n == path@.len(),
            m <= n,
            0 <= i <= m,
            forall|j: int| 0 <= j < i ==> path@[j] == prefix@[j],
        decreases m - i,
    {
        if path.get_char(i) != prefix.get_char(i) {
            assert(path@.subrange(0, m as int)[i as int] != prefix@[i as int]);
            return false;
        }
        i = i + 1;
    }
    assert(path@.subrange(0, m as int) =~= prefix@);
    true
}

/// Whether `s` ends with `suffix`.
pub fn has_suffix(s: &str, suffix: &str) -> (r: bool)
    ensures
        r == is_suffix_of(suffix@, s@),
{
    let n = s.unicode_len();
    let m = suffix.unicode_len();
    if m > n {
        return false;
    }
    let off = n - m;
    let mut i: usize = 0;
    while i < m
        invariant
            m == suffix@.len(),
            n == s@.len(),
            off == n - m,
            0 <= i <= m,
            forall|j: int| 0 <= j < i ==> s@[off + j] == suffix@[j],
        decreases m - i,
    {
        if s.get_char(off + i) != suffix.get_char(i) {
            assert(s@.subrange(off as int, n as int)[i as int] != suffix@[i as int]);
            return false;
        }
        i = i + 1;
    }
    assert(s@.subrange(off as int, n as int) =~= suffix@);
    true
}

/// Appends the path separator `sep` to a folder prefix unless it already
/// ends with it.
pub fn normalize_prefix(prefix: &String, sep: &str) -> (r: String)
    ensures
        r@ == normalized_prefix(prefix@, sep@),
{
    let mut r = prefix.clone();
    if !has_suffix(prefix.as_str(), sep) {
        r.append(sep);
    }
    r
}

/// Normalizes each folder prefix, in order.
pub fn normalize_prefixes(prefixes: &Vec<String>, sep: &str) -> (r: Vec<String>)
    ensures
        r@.len() == prefixes@.len(),
        forall|i: int|
            0 <= i < prefixes@.len() ==> #[trigger] r@[i]@ == normalized_prefix(prefixes@[i]@, sep@),
{
    let mut out: Vec<String> = Vec::new();
    let mut i: usize = 0;
    while i < prefixes.len()
        invariant
            0 <= i <= prefixes@.len(),
            out@.len() == i,
            forall|j: int|
                0 <= j < i ==> #[trigger] out@[j]@ == normalized_prefix(prefixes@[j]@, sep@),
        decreases prefixes@.len() - i,
    {
        out.push(normalize_prefix(&prefixes[i], sep));
        i = i + 1;
    }
    out
}

/// Whether `path` starts with one of `prefixes`.
pub fn matches_prefixes(path: &str, prefixes: &Vec<String>) -> (r: bool)
    ensures
        r == matches_any_prefix(path@, prefixes@),
{
    let mut i: usize = 0;
    while i < prefixes.len()
        invariant
            0 <= i <= prefixes@.len(),
            forall|j: int| 0 <= j < i ==> !is_prefix_of(#[trigger] prefixes@[j]@, path@),
        decreases prefixes@.len() - i,
    {
        if has_prefix(path, prefixes[i].as_str()) {
            return true;
        }
        i = i + 1;
    }
    false
}

/// The identifiers of the catalog files, in catalog order, whose path starts
/// with one of the (normalized) prefixes.
pub fn files_with_prefix(files: &Vec<(UUID, String)>, prefixes: &Vec<String>) -> (r: Vec<UUID>)
    ensures
        r@ == files_matching(files@, prefixes@),
{
    let mut out: Vec<UUID> = Vec::new();
    let mut i: usize = 0;
    while i < files.len()
        invariant
            0 <= i <= files@.len(),
            out@ == files_matching(files@.subrange(0, i as int), prefixes@),
        decreases files@.len() - i,
    {
        assert(files@.subrange(0, i + 1).drop_last() =~= files@.subrange(0, i as int));
        if matches_prefixes(files[i].1.as_str(), prefixes) {
            out.push(files[i].0);
        }
        i = i + 1;
    }
    assert(files@.subrange(0, files@.len() as int) =~= files@);
    out
}

/// Whether `v` holds `x`.
pub fn contains_id(v: &Vec<UUID>, x: UUID) -> (r: bool)
    ensures
        r == v@.contains(x),
{
    let mut i: usize = 0;
    while i < v.len()
        invariant
            0 <= i <= v@.len(),
            forall|j: int| 0 <= j < i ==> v@[j] != x,
        decreases v@.len() - i,
    {
        if v[i] == x {
            return true;
        }
        i = i + 1;
    }
    false
}

/// The elements of `ids`, in order, that `keep` holds.
pub fn retain_ids(ids: &Vec<UUID>, keep: &Vec<UUID>) -> (r: Vec<UUID>)
    ensures
        r@ == retain_in(ids@, keep@),
{
    let mut out: Vec<UUID> = Vec::new();
    let mut i: usize = 0;
    while i < ids.len()
        invariant
            0 <= i <= ids@.len(),
            out@ == retain_in(ids@.subrange(0, i as int), keep@),
        decreases ids@.len() - i,
    {
        assert(ids@.subrange(0, i + 1).drop_last() =~= ids@.subrange(0, i as int));
        if contains_id(keep, ids[i]) {
            out.push(ids[i]);
        }
        i = i + 1;
    }
    assert(ids@.subrange(0, ids@.len() as int) =~= ids@);
    out
}

/// The work that a query needs, by whether it has folder prefixes and
/// whether it has text.
#[derive(PartialEq, Eq, Structural, Clone, Copy, Debug)]
pub enum QueryPlan {
    /// Neither prefixes nor text: the answer is empty.
    Nothing,
    /// Prefixes only: every catalog file under one of them.
    PrefixOnly,
    /// Text only: a search over the whole index.
    Search,
    /// Both: a search, kept to the files under the prefixes.
    SearchWithinPrefixes,
}

/// Whether a plan embeds the query text (and so calls the encoder).
pub open spec fn needs_encoder(p: QueryPlan) -> bool {
    p == QueryPlan::Search || p == QueryPlan::SearchWithinPrefixes
}

/// Decides the work for a query from its folder prefixes and its text.
pub fn plan_query(path_prefixes: &Vec<String>, query: &str) -> (r: QueryPlan)
    ensures
        r == (if path_prefixes@.len() == 0 {
            if query@.len() == 0 {
                QueryPlan::Nothing
            } else {
                QueryPlan::Search
            }
        } else {
            if query@.len() == 0 {
                QueryPlan::PrefixOnly
            } else {
                QueryPlan::SearchWithinPrefixes
            }
        }),
        path_prefixes@.len() == 0 && query@.len() == 0 ==> !needs_encoder(r),
{
    let no_prefixes = path_prefixes.len() == 0;
    let no_text = query.unicode_len() == 0;
    if no_prefixes && no_text {
        QueryPlan::Nothing
    } else if no_prefixes {
        QueryPlan::Search
    } else if no_text {
        QueryPlan::PrefixOnly
    } else {
        QueryPlan::SearchWithinPrefixes
    }
}

/// The answer to a query under `plan`, given the files of its search hits in
/// order of distance (`hits`), those of them that the catalog still holds
/// (`live`), and the files under the query's prefixes (`under_prefixes`).
pub open spec fn query_answer(
    plan: QueryPlan,
    hits: Seq<UUID>,
    live: Seq<UUID>,
    under_prefixes: Seq<UUID>,
) -> Seq<UUID> {
    match plan {
        QueryPlan::Nothing => Seq::empty(),
        QueryPlan::PrefixOnly => under_prefixes,
        QueryPlan::Search => retain_in(hits, live),
        QueryPlan::SearchWithinPrefixes => retain_in(retain_in(hits, live), under_prefixes),
    }
}

/// Puts together the answer to a query: search hits whose file has left
/// the catalog are dropped, and with prefixes only hits under them stay; the
/// order of the hits is kept.
pub fn combine_results(
    plan: QueryPlan,
    hits: &Vec<UUID>,
    live: &Vec<UUID>,
    under_prefixes: &Vec<UUID>,
) -> (r: Vec<UUID>)
    ensures
        r@ == query_answer(plan, hits@, live@, under_prefixes@),
        plan == QueryPlan::Nothing ==> r@.len() == 0,
{
    match plan {
        QueryPlan::Nothing => Vec::new(),
        QueryPlan::PrefixOnly => under_prefixes.clone(),
        QueryPlan::Search => retain_ids(hits, live),
        QueryPlan::SearchWithinPrefixes => {
            let kept = retain_ids(hits, live);
            retain_ids(&kept, under_prefixes)
        },
    }
}

proof fn lemma_retain_in_subset(s: Seq<UUID>, keep: Seq<UUID>, a: UUID)
    ensures
        retain_in(s, keep).contains(a) ==> keep.contains(a) && s.contains(a),
    decreases s.len(),
{
    if s.len() > 0 {
        lemma_retain_in_subset(s.drop_last(), keep, a);
        let rest = retain_in(s.drop_last(), keep);
        if retain_in(s, keep).contains(a) {
            let i = choose|i: int| 0 <= i < retain_in(s, keep).len() && retain_in(s, keep)[i] == a;
            if i < rest.len() {
                assert(rest[i] == a);
                assert(rest.contains(a));
                let w = choose|w: int| 0 <= w < s.drop_last().len() && s.drop_last()[w] == a;
                assert(s[w] == a);
            } else {
                assert(s[s.len() - 1] == a);
            }
        }
    }
}

/// A file that has left the catalog is never in the answer to a query: it is
/// neither among the hits the catalog still holds nor among the catalog's
/// files under the prefixes, whatever the plan and the raw hits.
pub proof fn lemma_removed_never_returned(
    plan: QueryPlan,
    hits: Seq<UUID>,
    live: Seq<UUID>,
    under_prefixes: Seq<UUID>,
    a: UUID,
)
    requires
        !live.contains(a),
        !under_prefixes.contains(a),
    ensures
        !query_answer(plan, hits, live, under_prefixes).contains(a),
{
    lemma_retain_in_subset(hits, live, a);
    lemma_retain_in_subset(retain_in(hits, live), under_prefixes, a);
}

} // verus!
