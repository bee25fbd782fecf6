//! Text primitives: ASCII case folding, lexicographic order and joins.
use vstd::prelude::*;
use vstd::string::*;

verus! {

/// The code point of `c` after ASCII lower-casing.
pub open spec fn fold_code(c: char) -> int {
    if 'A' <= c && c <= 'Z' {
        (c as u32) as int + 32
    } else {
        (c as u32) as int
    }
}

/// The code points of a text.
pub open spec fn codes(s: Seq<char>) -> Seq<int> {
    s.map_values(|c: char| (c as u32) as int)
}

/// The code points of a text after ASCII lower-casing.
pub open spec fn folded(s: Seq<char>) -> Seq<int> {
    s.map_values(|c: char| fold_code(c))
}

/// Three-way lexicographic comparison: -1, 0 or 1.
pub open spec fn lex_cmp(a: Seq<int>, b: Seq<int>) -> int
    decreases a.len(),
{
    if a.len() == 0 {
        if b.len() == 0 {
            0
        } else {
            -1
        }
    } else if b.len() == 0 {
        1
    } else if a[0] < b[0] {
        -1
    } else if a[0] > b[0] {
        1
    } else {
        lex_cmp(a.drop_first(), b.drop_first())
    }
}

/// The comparison key of a text: folded or raw code points.
pub open spec fn text_key(s: Seq<char>, fold: bool) -> Seq<int> {
    if fold {
        folded(s)
    } else {
        codes(s)
    }
}

/// Lexicographic comparison is antisymmetric and tells only equal
/// sequences equal.
pub proof fn lemma_lex_cmp_antisym(a: Seq<int>, b: Seq<int>)
    ensures
        lex_cmp(a, b) == -lex_cmp(b, a),
        -1 <= lex_cmp(a, b) <= 1,
        lex_cmp(a, b) == 0 ==> a == b,
    decreases a.len(),
{
    if a.len() > 0 && b.len() > 0 && a[0] == b[0] {
        lemma_lex_cmp_antisym(a.drop_first(), b.drop_first());
        if lex_cmp(a, b) == 0 {
            assert(a =~= seq![a[0]] + a.drop_first());
            assert(b =~= seq![b[0]] + b.drop_first());
        }
    }
}

/// Lexicographic comparison is transitive, strictly where a step is strict.
pub proof fn lemma_lex_cmp_trans(a: Seq<int>, b: Seq<int>, c: Seq<int>)
    requires
        lex_cmp(a, b) <= 0,
        lex_cmp(b, c) <= 0,
    ensures
        lex_cmp(a, c) <= 0,
        (lex_cmp(a, b) < 0 || lex_cmp(b, c) < 0) ==> lex_cmp(a, c) < 0,
    decreases a.len(),
{
    lemma_lex_cmp_antisym(a, b);
    lemma_lex_cmp_antisym(b, c);
    if a.len() > 0 && b.len() > 0 && c.len() > 0 && a[0] == b[0] && b[0] == c[0] {
        lemma_lex_cmp_trans(a.drop_first(), b.drop_first(), c.drop_first());
    }
}

/// Raw code points tell texts apart.
pub proof fn lemma_codes_injective(a: Seq<char>, b: Seq<char>)
    requires
        codes(a) == codes(b),
    ensures
        a == b,
{
    assert(codes(a).len() == a.len());
    assert forall|i: int| 0 <= i < a.len() implies a[i] == b[i] by {
        let ua = a[i] as u32;
        let ub = b[i] as u32;
        assert(codes(a)[i] == ua as int);
        assert(codes(b)[i] == ub as int);
        vstd::utf8::char_u32_cast(a[i], ua);
        vstd::utf8::char_u32_cast(b[i], ub);
    }
    assert(a =~= b);
}

fn char_key(c: char, fold: bool) -> (r: u32)
    ensures
        r as int == (if fold {
            fold_code(c)
        } else {
            (c as u32) as int
        }),
{
    if fold && 'A' <= c && c <= 'Z' {
        (c as u32) + 32
    } else {
        c as u32
    }
}

/// Compares two texts lexicographically by code point, after ASCII
/// lower-casing when `fold` is set.
pub fn compare_text(a: &str, b: &str, fold: bool) -> (r: i8)
    ensures
        r as int == lex_cmp(text_key(a@, fold), text_key(b@, fold)),
{
    let ghost ka = text_key(a@, fold);
    let ghost kb = text_key(b@, fold);
    let la = a.unicode_len();
    let lb = b.unicode_len();
    let mut i: usize = 0;
    assert(ka.skip(0) =~= ka);
    assert(kb.skip(0) =~= kb);
    while i < la && i < lb
        invariant
            la == a@.len(),
            lb == b@.len(),
            ka.len() == la,
            kb.len() == lb,
            i <= la,
            i <= lb,
            ka == text_key(a@, fold),
            kb == text_key(b@, fold),
            lex_cmp(ka, kb) == lex_cmp(ka.skip(i as int), kb.skip(i as int)),
        decreases la - i,
    {
        let x = char_key(a.get_char(i), fold);
        let y = char_key(b.get_char(i), fold);
        assert(ka.skip(i as int)[0] == x);
        assert(kb.skip(i as int)[0] == y);
        if x < y {
            return -1;
        } else if x > y {
            return 1;
        }
        assert(ka.skip(i as int).drop_first() =~= ka.skip(i + 1));
        assert(kb.skip(i as int).drop_first() =~= kb.skip(i + 1));
        i = i + 1;
    }
    if i < la {
        1
    } else if i < lb {
        -1
    } else {
        0
    }
}

/// The tokens joined with single spaces.
pub open spec fn joined(tokens: Seq<Seq<char>>) -> Seq<char>
    decreases tokens.len(),
{
    if tokens.len() == 0 {
        seq![]
    } else if tokens.len() == 1 {
        tokens[0]
    } else {
        joined(tokens.drop_last()) + seq![' '] + tokens.last()
    }
}

/// Joins query tokens into one search string, one space between tokens.
pub fn join_query(tokens: &Vec<String>) -> (r: String)
    ensures
        r@ == joined(tokens@.map_values(|t: String| t@)),
{
    let ghost ts = tokens@.map_values(|t: String| t@);
    let mut r = String::new();
    let mut i: usize = 0;
    while i < tokens.len()
        invariant
            i <= tokens.len(),
            ts == tokens@.map_values(|t: String| t@),
            r@ == joined(ts.take(i as int)),
        decreases tokens.len() - i,
    {
        assert(ts.take(i + 1).drop_last() =~= ts.take(i as int));
        assert(ts.take(i + 1).last() == tokens[i as int]@);
        if i > 0 {
            r.append(" ");
            proof {
                reveal_strlit(" ");
            }
        }
        r.append(tokens[i].as_str());
        i = i + 1;
    }
    assert(ts.take(i as int) =~= ts);
    r
}

/// `rel` resolved against `root`: an absolute `rel` stands alone, otherwise
/// one '/' separates the two unless `root` is empty or already ends in '/'.
pub open spec fn joined_path(root: Seq<char>, rel: Seq<char>) -> Seq<char> {
    if rel.len() > 0 && rel[0] == '/' {
        rel
    } else if root.len() == 0 || root.last() == '/' {
        root + rel
    } else {
        root + seq!['/'] + rel
    }
}

/// Resolves a relative location against a root directory.
pub fn join_path(root: &str, rel: &str) -> (r: String)
    ensures
        r@ == joined_path(root@, rel@),
{
    let lr = root.unicode_len();
    if rel.unicode_len() > 0 && rel.get_char(0) == '/' {
        return String::from_str(rel);
    }
    let mut r = String::from_str(root);
    if lr > 0 && root.get_char(lr - 1) != '/' {
        r.append("/");
    }
    proof {
        reveal_strlit("/");
    }
    r.append(rel);
    r
}

} // verus!
