use zeal_search::{
    compare_text, docset_path, documents_root, format_line, index_path, join_path, join_query,
    no_results_message, records_from_rows, search, type_icon, IndexRecord, Kind, ScoredCandidate,
    SearchError, StoredRow, Tint,
};

fn s(x: &str) -> String {
    x.to_string()
}

#[test]
fn query_tokens_join_with_single_spaces() {
    assert_eq!(join_query(&vec![s("read"), s("file")]), "read file");
    assert_eq!(join_query(&vec![s("one")]), "one");
    assert_eq!(join_query(&vec![]), "");
    assert_eq!(join_query(&vec![s("a"), s(""), s("b")]), "a  b");
}

#[test]
fn paths_join_with_one_separator() {
    assert_eq!(join_path("/docs", "fs/a.html"), "/docs/fs/a.html");
    assert_eq!(join_path("/docs/", "fs/a.html"), "/docs/fs/a.html");
    assert_eq!(join_path("", "fs/a.html"), "fs/a.html");
    assert_eq!(join_path("/docs", "/abs/a.html"), "/abs/a.html");
}

#[test]
fn docset_locations() {
    let d = docset_path("/home/u/docsets", "NodeJS");
    assert_eq!(d, "/home/u/docsets/NodeJS.docset");
    assert_eq!(index_path(&d), "/home/u/docsets/NodeJS.docset/Contents/Resources/docSet.dsidx");
    assert_eq!(documents_root(&d), "/home/u/docsets/NodeJS.docset/Contents/Resources/Documents");
}

#[test]
fn text_comparison() {
    assert_eq!(compare_text("readFile", "readfile", true), 0);
    assert_eq!(compare_text("readFile", "readfile", false), -1);
    assert_eq!(compare_text("readdir", "readFile", true), -1);
    assert_eq!(compare_text("read", "readdir", false), -1);
    assert_eq!(compare_text("b", "a", false), 1);
    assert_eq!(compare_text("", "", true), 0);
}

#[test]
fn rows_with_null_columns_are_skipped() {
    let rows = vec![
        StoredRow { name: Some(s("a")), kind: Some(s("function")), path: Some(s("a.html")) },
        StoredRow { name: None, kind: Some(s("function")), path: Some(s("b.html")) },
        StoredRow { name: Some(s("c")), kind: None, path: Some(s("c.html")) },
        StoredRow { name: Some(s("d")), kind: Some(s("class")), path: Some(s("d.html")) },
    ];
    let r = records_from_rows(&rows);
    assert_eq!(r.len(), 2);
    assert_eq!(r[0].name, "a");
    assert_eq!(r[1].name, "d");
    assert_eq!(r[1].kind, "class");
    assert_eq!(r[1].relative_path, "d.html");
}

#[test]
fn kinds_are_recognised_up_to_case() {
    assert_eq!(Kind::from_name("Function"), Kind::Function);
    assert_eq!(Kind::from_name("_struct"), Kind::Struct);
    assert_eq!(Kind::from_name("TYPE"), Kind::TypeAlias);
    assert_eq!(Kind::from_name("Widget"), Kind::Other);
    assert_eq!(Kind::Function.glyph(), Some((Tint::Cyan, "\u{192}")));
    assert_eq!(Kind::Other.glyph(), None);
}

#[test]
fn icons_are_painted_glyphs() {
    assert_eq!(type_icon("function"), "\u{1b}[36m\u{192}\u{1b}[0m");
    assert_eq!(type_icon("Guide"), "\u{1b}[32m\u{f05da}\u{1b}[0m");
    assert_eq!(type_icon("struct"), "\u{1b}[31m\u{1f162}\u{1b}[0m");
    assert_eq!(type_icon("Widget"), "Widget");
}

fn candidate() -> ScoredCandidate {
    ScoredCandidate {
        record: IndexRecord::new(s("readFile"), s("function"), s("fs/readFile.html")),
        score: 7,
        resolved_path: s("/docs/fs/readFile.html"),
        ordinal: 0,
    }
}

#[test]
fn lines_plain_and_decorated() {
    assert_eq!(format_line(&candidate(), false), "\treadFile\tfunction\t/docs/fs/readFile.html");
    assert_eq!(
        format_line(&candidate(), true),
        "\u{1b}[36m\u{192}\u{1b}[0m\treadFile\tfunction\t/docs/fs/readFile.html"
    );
}

fn fs_rows() -> Vec<StoredRow> {
    vec![
        StoredRow { name: Some(s("readFile")), kind: Some(s("function")), path: Some(s("fs/readFile.html")) },
        StoredRow { name: Some(s("readdir")), kind: Some(s("function")), path: Some(s("fs/readdir.html")) },
        StoredRow { name: Some(s("ReadStream")), kind: Some(s("class")), path: Some(s("fs/ReadStream.html")) },
    ]
}

#[test]
fn search_lists_every_row_for_empty_query() {
    let lines = search("NodeJS", Ok(fs_rows()), "", "/d", false).ok().unwrap();
    assert_eq!(
        lines,
        vec![
            "\treaddir\tfunction\t/d/fs/readdir.html",
            "\treadFile\tfunction\t/d/fs/readFile.html",
            "\tReadStream\tclass\t/d/fs/ReadStream.html",
        ]
    );
}

#[test]
fn search_on_unreadable_store_fails_without_lines() {
    match search("NodeJS", Err(s("unable to open database file")), "read", "/d", true) {
        Err(e) => {
            let SearchError::StoreUnavailable { docset, reason } = &e;
            assert_eq!(docset, "NodeJS");
            assert_eq!(reason, "unable to open database file");
            assert_eq!(e.message(), "Error searching docset 'NodeJS': unable to open database file");
        }
        Ok(_) => panic!("expected an error"),
    }
}

#[test]
fn search_with_no_match_is_empty_not_error() {
    let lines = search("NodeJS", Ok(fs_rows()), "qqq", "/d", false).ok().unwrap();
    assert!(lines.is_empty());
    let empty = search("NodeJS", Ok(vec![]), "", "/d", false).ok().unwrap();
    assert!(empty.is_empty());
}

#[test]
fn no_results_text() {
    assert_eq!(no_results_message("readf", "NodeJS"), "No results found for 'readf' in docset 'NodeJS'");
}
