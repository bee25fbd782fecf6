//! Properties of rankings that relate several calls or all inputs.
use crate::matcher::{fuzzy_matches, score_of};
use crate::rank::{
    candidate_at, goes_before, is_ranking, lemma_goes_before_order, lemma_record_order,
    lemma_selected_prefix_members, record_le, selected_prefix, CandidateView,
};
use crate::record::RecordView;
use vstd::prelude::*;
use vstd::seq_lib::{to_multiset_contains, to_multiset_len, to_multiset_remove};

verus! {

broadcast use vstd::multiset::group_multiset_axioms;

/// Two sequences with the same elements, each sorted by `le`, are equal
/// when `le` is antisymmetric on those elements.
pub proof fn lemma_sorted_unique<A>(s: Seq<A>, t: Seq<A>, le: spec_fn(A, A) -> bool)
    requires
        s.to_multiset() == t.to_multiset(),
        forall|i: int, j: int| 0 <= i < j < s.len() ==> le(#[trigger] s[i], #[trigger] s[j]),
        forall|i: int, j: int| 0 <= i < j < t.len() ==> le(#[trigger] t[i], #[trigger] t[j]),
        forall|x: A, y: A| s.contains(x) && s.contains(y) && #[trigger] le(x, y) && #[trigger] le(y, x) ==> x == y,
    ensures
        s == t,
    decreases s.len(),
{
    to_multiset_len(s);
    to_multiset_len(t);
    if s.len() == 0 {
        assert(s =~= t);
    } else {
        let x = s[0];
        let y = t[0];
        to_multiset_contains(s, x);
        to_multiset_contains(t, x);
        to_multiset_contains(s, y);
        to_multiset_contains(t, y);
        assert(s.contains(x));
        assert(t.contains(y));
        let j = choose|j: int| 0 <= j < t.len() && t[j] == x;
        let k = choose|k: int| 0 <= k < s.len() && s[k] == y;
        if j > 0 {
            assert(le(t[0], t[j]));
        }
        if k > 0 {
            assert(le(s[0], s[k]));
        }
        assert(x == y);
        to_multiset_remove(s, 0);
        to_multiset_remove(t, 0);
        let s1 = s.remove(0);
        let t1 = t.remove(0);
        assert forall|i: int, j: int| 0 <= i < j < s1.len() implies le(#[trigger] s1[i], #[trigger] s1[j]) by {
            assert(s1[i] == s[i + 1] && s1[j] == s[j + 1]);
        }
        assert forall|i: int, j: int| 0 <= i < j < t1.len() implies le(#[trigger] t1[i], #[trigger] t1[j]) by {
            assert(t1[i] == t[i + 1] && t1[j] == t[j + 1]);
        }
        assert forall|a: A, b: A| s1.contains(a) && s1.contains(b) && #[trigger] le(a, b) && #[trigger] le(b, a) implies a
            == b by {
            let ia = choose|i: int| 0 <= i < s1.len() && s1[i] == a;
            let ib = choose|i: int| 0 <= i < s1.len() && s1[i] == b;
            assert(s[ia + 1] == a && s[ib + 1] == b);
        }
        lemma_sorted_unique(s1, t1, le);
        assert forall|i: int| 0 <= i < s.len() implies s[i] == t[i] by {
            if i > 0 {
                assert(s[i] == s1[i - 1] && t[i] == t1[i - 1]);
            }
        }
        assert(s =~= t);
    }
}

/// Mapping preserves equality of the multisets of two sequences.
pub proof fn lemma_map_multiset<A, B>(s: Seq<A>, t: Seq<A>, f: spec_fn(A) -> B)
    requires
        s.to_multiset() == t.to_multiset(),
    ensures
        s.map_values(f).to_multiset() == t.map_values(f).to_multiset(),
    decreases s.len(),
{
    to_multiset_len(s);
    to_multiset_len(t);
    let sf = s.map_values(f);
    let tf = t.map_values(f);
    if s.len() == 0 {
        assert(sf =~= tf);
    } else {
        let x = s[0];
        to_multiset_contains(s, x);
        to_multiset_contains(t, x);
        assert(s.contains(x));
        let j = choose|j: int| 0 <= j < t.len() && t[j] == x;
        to_multiset_remove(s, 0);
        to_multiset_remove(t, j);
        lemma_map_multiset(s.remove(0), t.remove(j), f);
        assert(s.remove(0).map_values(f) =~= sf.remove(0));
        assert(t.remove(j).map_values(f) =~= tf.remove(j));
        to_multiset_remove(sf, 0);
        to_multiset_remove(tf, j);
        to_multiset_contains(sf, f(x));
        to_multiset_contains(tf, f(x));
        assert(sf.contains(f(x)) && sf[0] == f(x));
        assert(tf.contains(f(x)) && tf[j] == f(x));
        assert(sf.to_multiset() =~= sf.to_multiset().remove(f(x)).insert(f(x)));
        assert(tf.to_multiset() =~= tf.to_multiset().remove(f(x)).insert(f(x)));
    }
}

/// The members of a ranking are candidates of the ranked records, each the
/// candidate of its own ordinal.
pub proof fn lemma_ranking_members(q: Seq<char>, c: Seq<RecordView>, root: Seq<char>, r: Seq<CandidateView>)
    requires
        is_ranking(q, c, root, r),
    ensures
        r.len() == selected_prefix(q, c, root, c.len() as int).len(),
        forall|x: CandidateView| #[trigger] r.contains(x) ==> {
            &&& 0 <= x.ordinal < c.len()
            &&& score_of(q, c[x.ordinal].name).is_some()
            &&& x == candidate_at(q, c, root, x.ordinal)
        },
{
    let sp = selected_prefix(q, c, root, c.len() as int);
    lemma_selected_prefix_members(q, c, root, c.len() as int);
    to_multiset_len(r);
    to_multiset_len(sp);
    assert forall|x: CandidateView| #[trigger] r.contains(x) implies {
        &&& 0 <= x.ordinal < c.len()
        &&& score_of(q, c[x.ordinal].name).is_some()
        &&& x == candidate_at(q, c, root, x.ordinal)
    } by {
        to_multiset_contains(r, x);
        to_multiset_contains(sp, x);
        let k = choose|k: int| 0 <= k < sp.len() && sp[k] == x;
    }
}

/// Stability: a query and a set of records have exactly one ranking, so
/// runs on the same inputs give the same sequence.
pub proof fn lemma_ranking_deterministic(
    q: Seq<char>,
    c: Seq<RecordView>,
    root: Seq<char>,
    r1: Seq<CandidateView>,
    r2: Seq<CandidateView>,
)
    requires
        is_ranking(q, c, root, r1),
        is_ranking(q, c, root, r2),
    ensures
        r1 == r2,
{
    let m = q.len() == 0;
    let le = |a: CandidateView, b: CandidateView| goes_before(m, a, b);
    lemma_ranking_members(q, c, root, r1);
    assert forall|x: CandidateView, y: CandidateView| r1.contains(x) && r1.contains(y) && #[trigger] le(x, y)
        && #[trigger] le(y, x) implies x == y by {
        lemma_goes_before_order(m, x, y, y);
    }
    lemma_sorted_unique(r1, r2, le);
}

/// The records of the candidates of a listing prefix are the records of
/// that prefix.
proof fn lemma_listing_prefix_records(c: Seq<RecordView>, root: Seq<char>, n: int)
    requires
        0 <= n <= c.len(),
    ensures
        selected_prefix(Seq::<char>::empty(), c, root, n).map_values(|x: CandidateView| x.record) == c.take(n),
    decreases n,
{
    let sp = selected_prefix(Seq::<char>::empty(), c, root, n);
    if n == 0 {
        assert(sp.map_values(|x: CandidateView| x.record) =~= c.take(n));
    } else {
        lemma_listing_prefix_records(c, root, n - 1);
        let prev = selected_prefix(Seq::<char>::empty(), c, root, n - 1);
        assert(prev.map_values(|x: CandidateView| x.record) =~= c.take(n - 1));
        assert(sp =~= prev.push(candidate_at(Seq::<char>::empty(), c, root, n - 1)));
        assert(sp.map_values(|x: CandidateView| x.record) =~= c.take(n));
    }
}

/// List mode does not depend on enumeration order: for an empty query, two
/// enumerations of the same records are ranked into the same sequence of
/// records, sorted by the listing order (case-insensitive name first).
pub proof fn lemma_listing_ignores_enumeration(
    c1: Seq<RecordView>,
    c2: Seq<RecordView>,
    root: Seq<char>,
    r1: Seq<CandidateView>,
    r2: Seq<CandidateView>,
)
    requires
        c1.to_multiset() == c2.to_multiset(),
        is_ranking(Seq::<char>::empty(), c1, root, r1),
        is_ranking(Seq::<char>::empty(), c2, root, r2),
    ensures
        r1.map_values(|x: CandidateView| x.record) == r2.map_values(|x: CandidateView| x.record),
        forall|i: int, j: int|
            0 <= i < j < r1.len() ==> record_le(#[trigger] r1[i].record, #[trigger] r1[j].record),
{
    let q = Seq::<char>::empty();
    let f = |x: CandidateView| x.record;
    let s1 = r1.map_values(f);
    let s2 = r2.map_values(f);
    lemma_listing_prefix_records(c1, root, c1.len() as int);
    lemma_listing_prefix_records(c2, root, c2.len() as int);
    assert(c1.take(c1.len() as int) =~= c1);
    assert(c2.take(c2.len() as int) =~= c2);
    lemma_map_multiset(r1, selected_prefix(q, c1, root, c1.len() as int), f);
    lemma_map_multiset(r2, selected_prefix(q, c2, root, c2.len() as int), f);
    let le = |a: RecordView, b: RecordView| record_le(a, b);
    assert forall|i: int, j: int| 0 <= i < j < s1.len() implies le(#[trigger] s1[i], #[trigger] s1[j]) by {
        assert(goes_before(true, r1[i], r1[j]));
    }
    assert forall|i: int, j: int| 0 <= i < j < s2.len() implies le(#[trigger] s2[i], #[trigger] s2[j]) by {
        assert(goes_before(true, r2[i], r2[j]));
    }
    assert forall|x: RecordView, y: RecordView| s1.contains(x) && s1.contains(y) && #[trigger] le(x, y)
        && #[trigger] le(y, x) implies x == y by {
        lemma_record_order(x, y, y);
    }
    lemma_sorted_unique(s1, s2, le);
    assert forall|i: int, j: int| 0 <= i < j < r1.len() implies record_le(
        #[trigger] r1[i].record,
        #[trigger] r1[j].record,
    ) by {
        assert(le(s1[i], s1[j]));
    }
}

/// In fuzzy mode every ranked name holds the query's characters in order
/// (exactly when the query has an ASCII upper-case letter, up to ASCII case
/// otherwise).
pub proof fn lemma_fuzzy_results_match(q: Seq<char>, c: Seq<RecordView>, root: Seq<char>, r: Seq<CandidateView>)
    requires
        q.len() > 0,
        is_ranking(q, c, root, r),
    ensures
        forall|k: int| 0 <= k < r.len() ==> fuzzy_matches(q, #[trigger] r[k].record.name),
{
    lemma_ranking_members(q, c, root, r);
    assert forall|k: int| 0 <= k < r.len() implies fuzzy_matches(q, #[trigger] r[k].record.name) by {
        assert(r.contains(r[k]));
    }
}

proof fn lemma_selected_prefix_empty(q: Seq<char>, c: Seq<RecordView>, root: Seq<char>, n: int)
    requires
        0 <= n <= c.len(),
    ensures
        selected_prefix(q, c, root, n).len() == 0 <==> forall|i: int|
            0 <= i < n ==> (#[trigger] score_of(q, c[i].name)).is_none(),
    decreases n,
{
    if n > 0 {
        lemma_selected_prefix_empty(q, c, root, n - 1);
    }
}

/// A ranking is empty exactly when no record is selected: in particular for
/// no records at all, or when every record is filtered out.
pub proof fn lemma_empty_ranking(q: Seq<char>, c: Seq<RecordView>, root: Seq<char>, r: Seq<CandidateView>)
    requires
        is_ranking(q, c, root, r),
    ensures
        r.len() == 0 <==> forall|i: int| 0 <= i < c.len() ==> (#[trigger] score_of(q, c[i].name)).is_none(),
        c.len() == 0 ==> r.len() == 0,
{
    lemma_ranking_members(q, c, root, r);
    lemma_selected_prefix_empty(q, c, root, c.len() as int);
}

} // verus!
