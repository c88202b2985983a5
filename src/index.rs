//! The search index of a docset: its schema and its rows.

use vstd::prelude::*;

use crate::common::{kind_name, DocsetEntry, EntryModel};
use crate::walk::entry_views;

verus! {

/// Creates the one table of the index.
pub const CREATE_TABLE_SQL: &'static str = "CREATE TABLE searchIndex(id INTEGER PRIMARY KEY, name TEXT, type TEXT, path TEXT)";

/// Makes each (name, type, path) triple unique in the index.
pub const CREATE_INDEX_SQL: &'static str = "CREATE UNIQUE INDEX anchor ON searchIndex (name, type, path)";

/// Inserts one row; its parameters are the name, the type and the path.
pub const INSERT_SQL: &'static str = "INSERT INTO searchIndex (name, type, path) VALUES (?1, ?2, ?3)";

/// One row of the index: the text of its name, type and path columns.
#[derive(Debug, Clone)]
pub struct IndexRow {
    pub name: String,
    pub kind: String,
    pub path: String,
}

/// What a row holds.
pub struct RowModel {
    pub name: Seq<char>,
    pub kind: Seq<char>,
    pub path: Seq<char>,
}

impl View for IndexRow {
    type V = RowModel;

    open spec fn view(&self) -> RowModel {
        RowModel { name: self.name@, kind: self.kind@, path: self.path@ }
    }
}

/// The row that stands for an entry.
pub open spec fn row_of(e: EntryModel) -> RowModel {
    RowModel { name: e.name, kind: kind_name(e.kind), path: e.path }
}

/// The views of a sequence of rows.
pub open spec fn row_views(v: Seq<IndexRow>) -> Seq<RowModel> {
    v.map_values(|r: IndexRow| r@)
}

/// The rows that stand for a sequence of entries.
pub open spec fn rows_of(s: Seq<EntryModel>) -> Seq<RowModel> {
    s.map_values(|e: EntryModel| row_of(e))
}

/// The row of one entry.
pub fn index_row(e: &DocsetEntry) -> (r: IndexRow)
    ensures
        r@ == row_of(e@),
{
    IndexRow { name: e.name.clone(), kind: e.ty.to_string(), path: e.path.clone() }
}

/// The rows of the index, one per entry and in the entries' order.
pub fn index_rows(entries: &Vec<DocsetEntry>) -> (r: Vec<IndexRow>)
    ensures
        row_views(r@) == rows_of(entry_views(entries@)),
{
    let mut rows: Vec<IndexRow> = Vec::new();
    let mut i: usize = 0;
    while i < entries.len()
        invariant
            i <= entries@.len(),
            row_views(rows@) == rows_of(entry_views(entries@)).take(i as int),
        decreases entries@.len() - i,
    {
        let row = index_row(&entries[i]);
        let ghost before = row_views(rows@);
        rows.push(row);
        assert(row_views(rows@) =~= before.push(row@));
        assert(entry_views(entries@)[i as int] == entries@[i as int]@);
        assert(row_views(rows@) =~= rows_of(entry_views(entries@)).take(i + 1));
        i = i + 1;
    }
    assert(rows_of(entry_views(entries@)).take(entries@.len() as int) =~= rows_of(entry_views(entries@)));
    rows
}

} // verus!
