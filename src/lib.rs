//! Ranked lookup of symbols in a documentation index: records read from a
//! document set's store are scored against a query, ranked and formatted.
pub mod format;
pub mod laws;
pub mod matcher;
pub mod rank;
pub mod record;
pub mod search;
pub mod text;

pub use format::{format_line, format_lines, type_icon, Kind, Tint};
pub use matcher::score_candidate;
pub use rank::{rank, rank_scored, CandidateView, ScoredCandidate};
pub use record::{records_from_rows, IndexRecord, RecordView, StoredRow};
pub use search::{docset_path, documents_root, index_path, no_results_message, search, Commands, SearchError};
pub use text::{compare_text, join_path, join_query};
