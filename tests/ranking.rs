use zeal_search::{rank, rank_scored, score_candidate, IndexRecord, ScoredCandidate};

fn rec(name: &str, kind: &str, path: &str) -> IndexRecord {
    IndexRecord::new(name.to_string(), kind.to_string(), path.to_string())
}

fn fs_store() -> Vec<IndexRecord> {
    vec![
        rec("readFile", "function", "fs/readFile.html"),
        rec("readdir", "function", "fs/readdir.html"),
        rec("ReadStream", "class", "fs/ReadStream.html"),
    ]
}

fn names(r: &[ScoredCandidate]) -> Vec<String> {
    r.iter().map(|c| c.record.name.clone()).collect()
}

#[test]
fn fuzzy_query_ranks_read_file_first() {
    let r = rank("readf", &fs_store(), "/docs");
    assert!(!r.is_empty());
    assert_eq!(r[0].record.name, "readFile");
    assert_eq!(r[0].record.kind, "function");
    assert_eq!(r[0].resolved_path, "/docs/fs/readFile.html");
    assert_eq!(r[0].ordinal, 0);
    assert_eq!(names(&r), vec!["readFile"]);
}

#[test]
fn empty_query_lists_case_insensitively() {
    let r = rank("", &fs_store(), "/docs");
    assert_eq!(names(&r), vec!["readdir", "readFile", "ReadStream"]);
    assert!(r.iter().all(|c| c.score == 0));
    assert_eq!(r[2].resolved_path, "/docs/fs/ReadStream.html");
}

#[test]
fn listing_ignores_enumeration_order() {
    let mut reversed = fs_store();
    reversed.reverse();
    let a = rank("", &fs_store(), "/docs");
    let b = rank("", &reversed, "/docs");
    assert_eq!(names(&a), names(&b));
}

#[test]
fn listing_breaks_case_ties_by_code_point() {
    let c = vec![rec("abc", "function", "b"), rec("ABC", "function", "a"), rec("Abc", "class", "c")];
    let r = rank("", &c, "");
    assert_eq!(names(&r), vec!["ABC", "Abc", "abc"]);
}

#[test]
fn repeated_runs_agree() {
    let c = vec![
        rec("readFile", "function", "a"),
        rec("readFile", "method", "b"),
        rec("fileRead", "function", "c"),
        rec("rf", "function", "d"),
    ];
    let a = rank("rf", &c, "/x");
    let b = rank("rf", &c, "/x");
    let key = |r: &[ScoredCandidate]| r.iter().map(|x| (x.ordinal, x.score)).collect::<Vec<_>>();
    assert_eq!(key(&a), key(&b));
    assert_eq!(names(&a), names(&b));
}

#[test]
fn equal_scores_keep_enumeration_order() {
    let c = vec![rec("abc", "method", "m"), rec("abc", "function", "f"), rec("abc", "class", "c")];
    let r = rank("abc", &c, "");
    assert_eq!(r.iter().map(|x| x.ordinal).collect::<Vec<_>>(), vec![0, 1, 2]);
}

#[test]
fn scores_descend_in_fuzzy_mode() {
    let c = vec![
        rec("xxrxxexxaxxd", "function", "a"),
        rec("read", "function", "b"),
        rec("thread", "function", "c"),
    ];
    let r = rank("read", &c, "");
    assert_eq!(r.len(), 3);
    for w in r.windows(2) {
        assert!(w[0].score >= w[1].score);
    }
    assert_eq!(r[0].record.name, "read");
}

#[test]
fn exact_name_scores_at_least_scattered_match() {
    let exact = score_candidate("read", "read").unwrap();
    let scattered = score_candidate("read", "rXeXaXd").unwrap();
    assert!(exact >= scattered);
}

#[test]
fn empty_store_gives_empty_ranking() {
    assert!(rank("read", &Vec::new(), "/docs").is_empty());
    assert!(rank("", &Vec::new(), "/docs").is_empty());
}

#[test]
fn everything_filtered_out_gives_empty_ranking() {
    assert!(rank("zzz", &fs_store(), "/docs").is_empty());
}

#[test]
fn fuzzy_results_hold_query_in_order() {
    let c = vec![rec("daer", "function", "a"), rec("rxexaxd", "function", "b"), rec("READ", "function", "c")];
    let r = rank("read", &c, "");
    let mut n = names(&r);
    n.sort();
    assert_eq!(n, vec!["READ", "rxexaxd"]);
}

#[test]
fn upper_case_query_matches_case_sensitively() {
    assert_eq!(score_candidate("RS", "readStream"), None);
    assert!(score_candidate("RS", "ReadStream").is_some());
    assert!(score_candidate("rs", "ReadStream").is_some());
    assert_eq!(score_candidate("", "anything"), Some(0));
    assert_eq!(score_candidate("xyz", "readFile"), None);
}

#[test]
fn precomputed_scores_rank_like_rank() {
    let c = fs_store();
    let scores: Vec<Option<i64>> = c.iter().map(|r| score_candidate("rea", &r.name)).collect();
    let a = rank_scored("rea", &c, &scores, "/d");
    let b = rank("rea", &c, "/d");
    assert_eq!(names(&a), names(&b));
    assert_eq!(a.len(), 3);
}
