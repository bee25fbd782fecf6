//! Index records and their projection from stored rows.
use vstd::prelude::*;

verus! {

/// One documented symbol or page of a document set.
pub struct IndexRecord {
    pub name: String,
    pub kind: String,
    pub relative_path: String,
}

/// What an index record holds, as texts.
pub struct RecordView {
    pub name: Seq<char>,
    pub kind: Seq<char>,
    pub path: Seq<char>,
}

impl View for IndexRecord {
    type V = RecordView;

    open spec fn view(&self) -> RecordView {
        RecordView { name: self.name@, kind: self.kind@, path: self.relative_path@ }
    }
}

/// The views of a sequence of records.
pub open spec fn record_views(s: Seq<IndexRecord>) -> Seq<RecordView> {
    s.map_values(|r: IndexRecord| r@)
}

impl IndexRecord {
    /// A record from its three fields.
    pub fn new(name: String, kind: String, relative_path: String) -> (r: IndexRecord)
        ensures
            r.name == name,
            r.kind == kind,
            r.relative_path == relative_path,
    {
        IndexRecord { name, kind, relative_path }
    }

    /// A copy with the same texts.
    pub fn duplicate(&self) -> (r: IndexRecord)
        ensures
            r@ == self@,
    {
        IndexRecord {
            name: self.name.clone(),
            kind: self.kind.clone(),
            relative_path: self.relative_path.clone(),
        }
    }
}

/// A row as read from the record store; a column may be null.
pub struct StoredRow {
    pub name: Option<String>,
    pub kind: Option<String>,
    pub path: Option<String>,
}

/// A row is usable when none of its columns is null.
pub open spec fn row_complete(r: StoredRow) -> bool {
    r.name.is_some() && r.kind.is_some() && r.path.is_some()
}

/// The record that a complete row stands for.
pub open spec fn row_view(r: StoredRow) -> RecordView {
    RecordView { name: r.name.unwrap()@, kind: r.kind.unwrap()@, path: r.path.unwrap()@ }
}

/// The records of the complete rows, in row order.
pub open spec fn rows_records(rows: Seq<StoredRow>) -> Seq<RecordView>
    decreases rows.len(),
{
    if rows.len() == 0 {
        seq![]
    } else {
        let prev = rows_records(rows.drop_last());
        if row_complete(rows.last()) {
            prev.push(row_view(rows.last()))
        } else {
            prev
        }
    }
}

/// Projects stored rows into records, skipping rows with a null column.
pub fn records_from_rows(rows: &Vec<StoredRow>) -> (r: Vec<IndexRecord>)
    ensures
        record_views(r@) == rows_records(rows@),
{
    let mut out: Vec<IndexRecord> = Vec::new();
    let mut i: usize = 0;
    while i < rows.len()
        invariant
            i <= rows.len(),
            record_views(out@) == rows_records(rows@.take(i as int)),
        decreases rows.len() - i,
    {
        let row = &rows[i];
        assert(rows@.take(i + 1).drop_last() =~= rows@.take(i as int));
        assert(rows@.take(i + 1).last() == *row);
        let ghost before = out@;
        match (&row.name, &row.kind, &row.path) {
            (Some(n), Some(k), Some(p)) => {
                out.push(IndexRecord { name: n.clone(), kind: k.clone(), relative_path: p.clone() });
                assert(record_views(out@) =~= record_views(before).push(out@.last()@));
            },
            _ => {},
        }
        i = i + 1;
    }
    assert(rows@.take(i as int) =~= rows@);
    out
}

} // verus!
