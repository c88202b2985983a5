use cargo_docset::common::{DocsetEntry, EntryType};
use cargo_docset::index::{index_row, index_rows, IndexRow, CREATE_INDEX_SQL, CREATE_TABLE_SQL, INSERT_SQL};
use rusqlite::Connection;

fn build_index(conn: &mut Connection, rows: &[IndexRow]) -> rusqlite::Result<()> {
    conn.execute(CREATE_TABLE_SQL, ())?;
    conn.execute(CREATE_INDEX_SQL, ())?;
    let tx = conn.transaction()?;
    {
        let mut stmt = tx.prepare(INSERT_SQL)?;
        for row in rows {
            stmt.execute([row.name.as_str(), row.kind.as_str(), row.path.as_str()])?;
        }
    }
    tx.commit()
}

fn count_rows(conn: &Connection) -> i64 {
    conn.query_row("SELECT COUNT(*) FROM searchIndex", (), |r| r.get(0)).unwrap()
}

fn sample_entries() -> Vec<DocsetEntry> {
    vec![
        DocsetEntry::new("k".to_string(), EntryType::Package, "k/index.html".to_string()),
        DocsetEntry::new("k::f".to_string(), EntryType::Function, "k/fn.f.html".to_string()),
        DocsetEntry::new("k::S".to_string(), EntryType::Struct, "k/struct.S.html".to_string()),
    ]
}

#[test]
fn rows_render_kind_names() {
    let row = index_row(&DocsetEntry::new("k::f".to_string(), EntryType::Function, "k/fn.f.html".to_string()));
    assert_eq!(row.name, "k::f");
    assert_eq!(row.kind, "Function");
    assert_eq!(row.path, "k/fn.f.html");
    let rows = index_rows(&sample_entries());
    let kinds: Vec<&str> = rows.iter().map(|r| r.kind.as_str()).collect();
    assert_eq!(kinds, vec!["Package", "Function", "Struct"]);
    assert_eq!(rows[2].name, "k::S");
    assert_eq!(rows[2].path, "k/struct.S.html");
}

#[test]
fn index_holds_one_row_per_entry() {
    let mut conn = Connection::open_in_memory().unwrap();
    build_index(&mut conn, &index_rows(&sample_entries())).unwrap();
    assert_eq!(count_rows(&conn), 3);
    let kind: String = conn
        .query_row("SELECT type FROM searchIndex WHERE name = 'k::S'", (), |r| r.get(0))
        .unwrap();
    assert_eq!(kind, "Struct");
}

#[test]
fn empty_index_is_well_formed() {
    let mut conn = Connection::open_in_memory().unwrap();
    build_index(&mut conn, &index_rows(&vec![])).unwrap();
    assert_eq!(count_rows(&conn), 0);
    let tables: i64 = conn
        .query_row("SELECT COUNT(*) FROM sqlite_master WHERE type = 'table' AND name = 'searchIndex'", (), |r| r.get(0))
        .unwrap();
    assert_eq!(tables, 1);
    let indexes: i64 = conn
        .query_row("SELECT COUNT(*) FROM sqlite_master WHERE type = 'index' AND name = 'anchor'", (), |r| r.get(0))
        .unwrap();
    assert_eq!(indexes, 1);
}

#[test]
fn duplicate_triples_fail_and_commit_nothing() {
    let mut entries = sample_entries();
    entries.push(DocsetEntry::new("k::f".to_string(), EntryType::Function, "k/fn.f.html".to_string()));
    let mut conn = Connection::open_in_memory().unwrap();
    assert!(build_index(&mut conn, &index_rows(&entries)).is_err());
    assert_eq!(count_rows(&conn), 0);
}

#[test]
fn same_name_with_other_kind_is_accepted() {
    let mut entries = sample_entries();
    entries.push(DocsetEntry::new("k::f".to_string(), EntryType::Macro, "k/macro.f.html".to_string()));
    let mut conn = Connection::open_in_memory().unwrap();
    build_index(&mut conn, &index_rows(&entries)).unwrap();
    assert_eq!(count_rows(&conn), 4);
}
