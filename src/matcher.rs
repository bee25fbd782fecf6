//! Matching and scoring of one candidate name against a query.
use crate::text::fold_code;
use fuzzy_matcher::skim::SkimMatcherV2;
use fuzzy_matcher::FuzzyMatcher;
use vstd::prelude::*;

verus! {

/// The relevance that the skim matcher gives `choice` for `pattern`.
pub uninterp spec fn skim_score(choice: Seq<char>, pattern: Seq<char>) -> i64;

/// The query holds an ASCII upper-case letter, which makes matching
/// case-sensitive.
pub open spec fn has_ascii_upper(q: Seq<char>) -> bool {
    exists|i: int| 0 <= i < q.len() && 'A' <= #[trigger] q[i] && q[i] <= 'Z'
}

/// Two characters agree, exactly or up to ASCII case.
pub open spec fn chars_agree(c: char, p: char, sensitive: bool) -> bool {
    if sensitive {
        c == p
    } else {
        fold_code(c) == fold_code(p)
    }
}

/// The characters of `p` occur in order within `c`.
pub open spec fn subsequence_of(p: Seq<char>, c: Seq<char>, sensitive: bool) -> bool
    decreases c.len(),
{
    if p.len() == 0 {
        true
    } else if c.len() == 0 {
        false
    } else if chars_agree(c[0], p[0], sensitive) {
        subsequence_of(p.drop_first(), c.drop_first(), sensitive)
    } else {
        subsequence_of(p, c.drop_first(), sensitive)
    }
}

/// Smart-case subsequence match: case-sensitive exactly when the query has
/// an ASCII upper-case letter.
pub open spec fn fuzzy_matches(q: Seq<char>, name: Seq<char>) -> bool {
    subsequence_of(q, name, has_ascii_upper(q))
}

/// The score of a candidate name: a constant in list mode (empty query),
/// the skim score of a matching name otherwise, none for a name that does
/// not match.
pub open spec fn score_of(q: Seq<char>, name: Seq<char>) -> Option<i64> {
    if q.len() == 0 {
        Some(0)
    } else if fuzzy_matches(q, name) {
        Some(skim_score(name, q))
    } else {
        None
    }
}

/// Relies on fuzzy_matcher's `SkimMatcherV2::default().fuzzy_match`: with
/// its default smart case it returns `None` exactly when `cheap_matches`
/// finds no in-order occurrence of the pattern's characters (compared with
/// `eq_ignore_ascii_case` unless the pattern has an ASCII upper-case letter),
/// and otherwise a score that depends on the two texts alone.
#[verifier::external_body]
fn skim_fuzzy_match(choice: &str, pattern: &str) -> (r: Option<i64>)
    ensures
        r.is_some() == fuzzy_matches(pattern@, choice@),
        r.is_some() ==> r.unwrap() == skim_score(choice@, pattern@),
{
    SkimMatcherV2::default().fuzzy_match(choice, pattern)
}

/// Scores one candidate name against a query; `None` when it does not match.
pub fn score_candidate(query: &str, name: &str) -> (r: Option<i64>)
    ensures
        r == score_of(query@, name@),
{
    if query.is_empty() {
        Some(0)
    } else {
        skim_fuzzy_match(name, query)
    }
}

} // verus!
