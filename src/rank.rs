//! Ranking of scored candidates: list mode and fuzzy mode orderings.
use crate::matcher::{fuzzy_matches, score_candidate, score_of};
use crate::record::{record_views, IndexRecord, RecordView};
use crate::text::{
    codes, compare_text, folded, join_path, joined_path, lemma_codes_injective, lemma_lex_cmp_antisym,
    lemma_lex_cmp_trans, lex_cmp,
};
use vstd::prelude::*;

verus! {

/// A record with its score, its resolved location and its position in the
/// enumeration that it came from (the deterministic secondary key).
pub struct ScoredCandidate {
    pub record: IndexRecord,
    pub score: i64,
    pub resolved_path: String,
    pub ordinal: usize,
}

/// What a scored candidate holds, as mathematical values.
pub struct CandidateView {
    pub record: RecordView,
    pub score: int,
    pub resolved: Seq<char>,
    pub ordinal: int,
}

impl View for ScoredCandidate {
    type V = CandidateView;

    open spec fn view(&self) -> CandidateView {
        CandidateView {
            record: self.record@,
            score: self.score as int,
            resolved: self.resolved_path@,
            ordinal: self.ordinal as int,
        }
    }
}

/// The views of a sequence of candidates.
pub open spec fn candidate_views(s: Seq<ScoredCandidate>) -> Seq<CandidateView> {
    s.map_values(|x: ScoredCandidate| x@)
}

/// Listing order of records: case-insensitive name, then name, kind and
/// location by code point.
pub open spec fn record_le(a: RecordView, b: RecordView) -> bool {
    let k1 = lex_cmp(folded(a.name), folded(b.name));
    let k2 = lex_cmp(codes(a.name), codes(b.name));
    let k3 = lex_cmp(codes(a.kind), codes(b.kind));
    let k4 = lex_cmp(codes(a.path), codes(b.path));
    k1 < 0 || (k1 == 0 && (k2 < 0 || (k2 == 0 && (k3 < 0 || (k3 == 0 && k4 <= 0)))))
}

/// `a` may stand before `b` in a ranking: in list mode by the listing order
/// of the records, in fuzzy mode by descending score; ties go by ordinal.
pub open spec fn goes_before(list_mode: bool, a: CandidateView, b: CandidateView) -> bool {
    if list_mode {
        record_le(a.record, b.record) && (!record_le(b.record, a.record) || a.ordinal <= b.ordinal)
    } else {
        a.score > b.score || (a.score == b.score && a.ordinal <= b.ordinal)
    }
}

/// Every candidate may stand before each one that follows it.
pub open spec fn sorted_by(s: Seq<CandidateView>, list_mode: bool) -> bool {
    forall|i: int, j: int| 0 <= i < j < s.len() ==> goes_before(list_mode, #[trigger] s[i], #[trigger] s[j])
}

/// The candidate that the record at position `i` becomes.
pub open spec fn candidate_at(q: Seq<char>, c: Seq<RecordView>, root: Seq<char>, i: int) -> CandidateView {
    CandidateView {
        record: c[i],
        score: score_of(q, c[i].name).unwrap() as int,
        resolved: joined_path(root, c[i].path),
        ordinal: i,
    }
}

/// The candidates of the first `n` records that the query selects, in
/// enumeration order.
pub open spec fn selected_prefix(q: Seq<char>, c: Seq<RecordView>, root: Seq<char>, n: int) -> Seq<CandidateView>
    decreases n,
{
    if n <= 0 {
        seq![]
    } else {
        let prev = selected_prefix(q, c, root, n - 1);
        if score_of(q, c[n - 1].name).is_some() {
            prev.push(candidate_at(q, c, root, n - 1))
        } else {
            prev
        }
    }
}

/// `r` is the ranking of records `c` for query `q`: it holds exactly the
/// selected candidates, ordered by `goes_before`.
pub open spec fn is_ranking(q: Seq<char>, c: Seq<RecordView>, root: Seq<char>, r: Seq<CandidateView>) -> bool {
    &&& r.to_multiset() == selected_prefix(q, c, root, c.len() as int).to_multiset()
    &&& sorted_by(r, q.len() == 0)
}

/// The listing order of records is a total order.
pub proof fn lemma_record_order(a: RecordView, b: RecordView, c: RecordView)
    ensures
        record_le(a, b) || record_le(b, a),
        record_le(a, b) && record_le(b, a) ==> a == b,
        record_le(a, b) && record_le(b, c) ==> record_le(a, c),
        record_le(a, a),
{
    lemma_lex_cmp_antisym(folded(a.name), folded(b.name));
    lemma_lex_cmp_antisym(codes(a.name), codes(b.name));
    lemma_lex_cmp_antisym(codes(a.kind), codes(b.kind));
    lemma_lex_cmp_antisym(codes(a.path), codes(b.path));
    lemma_lex_cmp_antisym(folded(a.name), folded(a.name));
    lemma_lex_cmp_antisym(codes(a.name), codes(a.name));
    lemma_lex_cmp_antisym(codes(a.kind), codes(a.kind));
    lemma_lex_cmp_antisym(codes(a.path), codes(a.path));
    if record_le(a, b) && record_le(b, a) {
        lemma_codes_injective(a.name, b.name);
        lemma_codes_injective(a.kind, b.kind);
        lemma_codes_injective(a.path, b.path);
    }
    if record_le(a, b) && record_le(b, c) {
        lemma_lex_cmp_antisym(folded(b.name), folded(c.name));
        lemma_lex_cmp_antisym(codes(b.name), codes(c.name));
        lemma_lex_cmp_antisym(codes(b.kind), codes(c.kind));
        lemma_lex_cmp_antisym(codes(b.path), codes(c.path));
        lemma_lex_cmp_trans(folded(a.name), folded(b.name), folded(c.name));
        if lex_cmp(folded(a.name), folded(b.name)) == 0 && lex_cmp(folded(b.name), folded(c.name)) == 0 {
            lemma_lex_cmp_trans(codes(a.name), codes(b.name), codes(c.name));
            if lex_cmp(codes(a.name), codes(b.name)) == 0 && lex_cmp(codes(b.name), codes(c.name)) == 0 {
                lemma_lex_cmp_trans(codes(a.kind), codes(b.kind), codes(c.kind));
                if lex_cmp(codes(a.kind), codes(b.kind)) == 0 && lex_cmp(codes(b.kind), codes(c.kind)) == 0 {
                    lemma_lex_cmp_trans(codes(a.path), codes(b.path), codes(c.path));
                }
            }
        }
    }
}

/// `goes_before` is total and transitive, and orders two candidates both
/// ways only when they share an ordinal.
pub proof fn lemma_goes_before_order(m: bool, a: CandidateView, b: CandidateView, c: CandidateView)
    ensures
        goes_before(m, a, b) || goes_before(m, b, a),
        goes_before(m, a, b) && goes_before(m, b, a) ==> a.ordinal == b.ordinal,
        goes_before(m, a, b) && goes_before(m, b, c) ==> goes_before(m, a, c),
{
    lemma_record_order(a.record, b.record, c.record);
    lemma_record_order(b.record, c.record, a.record);
    lemma_record_order(c.record, a.record, b.record);
    lemma_record_order(b.record, a.record, c.record);
    lemma_record_order(a.record, c.record, b.record);
}

/// Every candidate of a selected prefix is the candidate of its own ordinal,
/// which lies in the prefix and is selected.
pub proof fn lemma_selected_prefix_members(q: Seq<char>, c: Seq<RecordView>, root: Seq<char>, n: int)
    requires
        0 <= n <= c.len(),
    ensures
        selected_prefix(q, c, root, n).len() <= n,
        forall|k: int| 0 <= k < selected_prefix(q, c, root, n).len() ==> {
            let x = #[trigger] selected_prefix(q, c, root, n)[k];
            &&& 0 <= x.ordinal < n
            &&& score_of(q, c[x.ordinal].name).is_some()
            &&& x == candidate_at(q, c, root, x.ordinal)
        },
    decreases n,
{
    if n > 0 {
        lemma_selected_prefix_members(q, c, root, n - 1);
    }
}

fn records_le(a: &IndexRecord, b: &IndexRecord) -> (r: bool)
    ensures
        r == record_le(a@, b@),
{
    let k1 = compare_text(a.name.as_str(), b.name.as_str(), true);
    if k1 != 0 {
        return k1 < 0;
    }
    let k2 = compare_text(a.name.as_str(), b.name.as_str(), false);
    if k2 != 0 {
        return k2 < 0;
    }
    let k3 = compare_text(a.kind.as_str(), b.kind.as_str(), false);
    if k3 != 0 {
        return k3 < 0;
    }
    let k4 = compare_text(a.relative_path.as_str(), b.relative_path.as_str(), false);
    k4 <= 0
}

fn candidate_goes_before(list_mode: bool, a: &ScoredCandidate, b: &ScoredCandidate) -> (r: bool)
    ensures
        r == goes_before(list_mode, a@, b@),
{
    if list_mode {
        records_le(&a.record, &b.record) && (!records_le(&b.record, &a.record) || a.ordinal <= b.ordinal)
    } else {
        a.score > b.score || (a.score == b.score && a.ordinal <= b.ordinal)
    }
}

/// Ranks records whose scores are already known (`scores[i]` is the score
/// of `candidates[i]`, `None` for one that does not match).
pub fn rank_scored(query: &str, candidates: &Vec<IndexRecord>, scores: &Vec<Option<i64>>, content_root: &str) -> (r:
    Vec<ScoredCandidate>)
    requires
        scores.len() == candidates.len(),
        forall|i: int| 0 <= i < scores.len() ==> scores[i] == score_of(query@, #[trigger] candidates[i]@.name),
    ensures
        is_ranking(query@, record_views(candidates@), content_root@, candidate_views(r@)),
        forall|k: int| 0 <= k < r.len() ==> {
            let x = #[trigger] candidate_views(r@)[k];
            &&& 0 <= x.ordinal < candidates.len()
            &&& score_of(query@, candidates[x.ordinal]@.name).is_some()
            &&& x == candidate_at(query@, record_views(candidates@), content_root@, x.ordinal)
        },
        r.len() <= candidates.len(),
        candidates.len() == 0 ==> r.len() == 0,
        query@.len() > 0 ==> forall|k: int| 0 <= k < r.len() ==> fuzzy_matches(query@, #[trigger] r[k].record.name@),
{
    let list_mode = query.is_empty();
    let ghost q = query@;
    let ghost c = record_views(candidates@);
    let ghost root = content_root@;
    let mut out: Vec<ScoredCandidate> = Vec::new();
    let mut i: usize = 0;
    assert(candidate_views(out@) =~= selected_prefix(q, c, root, 0));
    while i < candidates.len()
        invariant
            i <= candidates.len(),
            scores.len() == candidates.len(),
            forall|i: int| 0 <= i < scores.len() ==> scores[i] == score_of(q, #[trigger] candidates[i]@.name),
            list_mode == (q.len() == 0),
            q == query@,
            c == record_views(candidates@),
            root == content_root@,
            candidate_views(out@).to_multiset() == selected_prefix(q, c, root, i as int).to_multiset(),
            sorted_by(candidate_views(out@), list_mode),
            out.len() <= i,
            forall|k: int| 0 <= k < out.len() ==> {
                let x = #[trigger] candidate_views(out@)[k];
                &&& 0 <= x.ordinal < i
                &&& score_of(q, c[x.ordinal].name).is_some()
                &&& x == candidate_at(q, c, root, x.ordinal)
            },
        decreases candidates.len() - i,
    {
        let rec = &candidates[i];
        match scores[i] {
            None => {},
            Some(s) => {
                let cand = ScoredCandidate {
                    record: rec.duplicate(),
                    score: s,
                    resolved_path: join_path(content_root, rec.relative_path.as_str()),
                    ordinal: i,
                };
                assert(cand@ == candidate_at(q, c, root, i as int));
                let mut j: usize = 0;
                while j < out.len() && candidate_goes_before(list_mode, &out[j], &cand)
                    invariant
                        j <= out.len(),
                        forall|k: int| 0 <= k < j ==> goes_before(list_mode, #[trigger] out@[k]@, cand@),
                    decreases out.len() - j,
                {
                    j = j + 1;
                }
                let ghost old_views = candidate_views(out@);
                proof {
                    if j < out.len() {
                        lemma_goes_before_order(list_mode, out@[j as int]@, cand@, cand@);
                        assert forall|k: int| j <= k < old_views.len() implies goes_before(
                            list_mode,
                            cand@,
                            #[trigger] old_views[k],
                        ) by {
                            lemma_goes_before_order(list_mode, cand@, old_views[j as int], old_views[k]);
                            if k > j {
                                assert(goes_before(list_mode, old_views[j as int], old_views[k]));
                            }
                        }
                    }
                }
                out.insert(j, cand);
                proof {
                    let nv = candidate_views(out@);
                    assert(nv =~= old_views.insert(j as int, cand@));
                    vstd::seq_lib::to_multiset_insert(old_views, j as int, cand@);
                    vstd::seq_lib::to_multiset_build(selected_prefix(q, c, root, i as int), cand@);
                    assert forall|a: int, b: int| 0 <= a < b < nv.len() implies goes_before(
                        list_mode,
                        #[trigger] nv[a],
                        #[trigger] nv[b],
                    ) by {
                        if a < j && b > j {
                            assert(goes_before(list_mode, old_views[a], cand@));
                            assert(goes_before(list_mode, cand@, old_views[b - 1]));
                            lemma_goes_before_order(list_mode, old_views[a], cand@, old_views[b - 1]);
                        } else if a < j && b == j {
                            assert(goes_before(list_mode, out@[a]@, cand@));
                        } else if a == j {
                            assert(goes_before(list_mode, cand@, old_views[b - 1]));
                        } else if b < j {
                            assert(goes_before(list_mode, old_views[a], old_views[b]));
                        } else {
                            assert(goes_before(list_mode, old_views[a - 1], old_views[b - 1]));
                        }
                    }
                }
            },
        }
        i = i + 1;
    }
    assert forall|k: int| 0 <= k < out.len() implies q.len() > 0 ==> fuzzy_matches(q, #[trigger] out[k].record.name@) by {
        assert(candidate_views(out@)[k] == out@[k]@);
    }
    out
}

/// Ranks records for a query: in list mode (empty query) every record by the
/// listing order, in fuzzy mode the matching records by descending score,
/// ties in enumeration order.
pub fn rank(query: &str, candidates: &Vec<IndexRecord>, content_root: &str) -> (r: Vec<ScoredCandidate>)
    ensures
        is_ranking(query@, record_views(candidates@), content_root@, candidate_views(r@)),
        forall|k: int| 0 <= k < r.len() ==> {
            let x = #[trigger] candidate_views(r@)[k];
            &&& 0 <= x.ordinal < candidates.len()
            &&& score_of(query@, candidates[x.ordinal]@.name).is_some()
            &&& x == candidate_at(query@, record_views(candidates@), content_root@, x.ordinal)
        },
        r.len() <= candidates.len(),
        candidates.len() == 0 ==> r.len() == 0,
        query@.len() > 0 ==> forall|k: int| 0 <= k < r.len() ==> fuzzy_matches(query@, #[trigger] r[k].record.name@),
{
    let mut scores: Vec<Option<i64>> = Vec::new();
    let mut i: usize = 0;
    while i < candidates.len()
        invariant
            i <= candidates.len(),
            scores.len() == i,
            forall|k: int| 0 <= k < i ==> scores[k] == score_of(query@, #[trigger] candidates[k]@.name),
        decreases candidates.len() - i,
    {
        scores.push(score_candidate(query, candidates[i].name.as_str()));
        i = i + 1;
    }
    rank_scored(query, candidates, &scores, content_root)
}

} // verus!
