//! One search over a document set: from stored rows to display lines.
use crate::format::{display_line, format_lines};
use crate::rank::{is_ranking, rank, CandidateView};
use crate::record::{records_from_rows, rows_records, StoredRow};
use crate::text::{join_path, joined_path};
use vstd::prelude::*;

verus! {

/// What the command line asks for.
pub enum Commands {
    ListDocsets,
    Search { docset: String, query: Vec<String> },
}

/// A search that could not be carried out.
pub enum SearchError {
    /// The record store of the document set could not be opened or read.
    StoreUnavailable { docset: String, reason: String },
}

impl SearchError {
    /// The message that reports the error.
    pub fn message(&self) -> (r: String)
        ensures
            r@ == (match self {
                SearchError::StoreUnavailable { docset, reason } => "Error searching docset '"@ + docset@
                    + "': "@ + reason@,
            }),
    {
        match self {
            SearchError::StoreUnavailable { docset, reason } => {
                let mut r = String::from_str("Error searching docset '");
                r.append(docset.as_str());
                r.append("': ");
                r.append(reason.as_str());
                r
            },
        }
    }
}

/// The directory of a document set beneath the directory of all sets.
pub fn docset_path(base: &str, docset: &str) -> (r: String)
    ensures
        r@ == joined_path(base@, docset@ + ".docset"@),
{
    let mut name = String::from_str(docset);
    name.append(".docset");
    join_path(base, name.as_str())
}

/// The record store of a document set.
pub fn index_path(docset_dir: &str) -> (r: String)
    ensures
        r@ == joined_path(docset_dir@, "Contents/Resources/docSet.dsidx"@),
{
    join_path(docset_dir, "Contents/Resources/docSet.dsidx")
}

/// The content root under which stored locations resolve.
pub fn documents_root(docset_dir: &str) -> (r: String)
    ensures
        r@ == joined_path(docset_dir@, "Contents/Resources/Documents"@),
{
    join_path(docset_dir, "Contents/Resources/Documents")
}

/// The lines are the display lines of the ranking of `rows` for `q`.
pub open spec fn lines_of_ranking(
    q: Seq<char>,
    rows: Seq<StoredRow>,
    root: Seq<char>,
    decorate: bool,
    lines: Seq<String>,
) -> bool {
    exists|r: Seq<CandidateView>|
        {
            &&& is_ranking(q, rows_records(rows), root, r)
            &&& lines.len() == r.len()
            &&& forall|k: int| 0 <= k < r.len() ==> #[trigger] lines[k]@ == display_line(r[k], decorate)
        }
}

/// Runs one search on what was read from a document set's record store
/// (an `Err` with the reason when the store could not be read): either every
/// display line of the ranking, or the error, never a part of the lines.
pub fn search(
    docset: &str,
    store: Result<Vec<StoredRow>, String>,
    query: &str,
    content_root: &str,
    decorate: bool,
) -> (r: Result<Vec<String>, SearchError>)
    ensures
        store.is_err() <==> r.is_err(),
        r matches Err(SearchError::StoreUnavailable { docset: d, reason }) ==> d@ == docset@ && reason
            == store->Err_0,
        r matches Ok(lines) ==> lines_of_ranking(query@, store->Ok_0@, content_root@, decorate, lines@),
{
    match store {
        Err(reason) => Err(SearchError::StoreUnavailable { docset: String::from_str(docset), reason }),
        Ok(rows) => {
            let records = records_from_rows(&rows);
            let ranked = rank(query, &records, content_root);
            let lines = format_lines(&ranked, decorate);
            let ghost rv = ranked@.map_values(|x: crate::rank::ScoredCandidate| x@);
            assert(forall|k: int| 0 <= k < rv.len() ==> #[trigger] lines@[k]@ == display_line(rv[k], decorate));
            Ok(lines)
        },
    }
}

/// The message for a search that found nothing.
pub fn no_results_message(query: &str, docset: &str) -> (r: String)
    ensures
        r@ == "No results found for '"@ + query@ + "' in docset '"@ + docset@ + "'"@,
{
    let mut r = String::from_str("No results found for '");
    r.append(query);
    r.append("' in docset '");
    r.append(docset);
    r.append("'");
    r
}

} // verus!
