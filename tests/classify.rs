use cargo_docset::classify::{is_html_file, kind_from_token, parse_docset_entry};
use cargo_docset::common::{EntryType, Error};

fn entry(q: Option<&str>, prefix: &str, file: &str) -> (String, EntryType, String) {
    match parse_docset_entry(q, prefix, file) {
        Ok(Some(e)) => (e.name, e.ty, e.path),
        other => panic!("expected an entry, got {:?}", other),
    }
}

#[test]
fn one_token_html_gives_nothing() {
    assert!(matches!(parse_docset_entry(Some("pkg"), "pkg/", "foo.html"), Ok(None)));
}

#[test]
fn unknown_kind_gives_nothing() {
    assert!(matches!(parse_docset_entry(Some("pkg::m"), "pkg/m/", "union.Foo.html"), Ok(None)));
    assert!(matches!(parse_docset_entry(Some("pkg::m"), "pkg/m/", "all.html"), Ok(None)));
    assert!(matches!(parse_docset_entry(Some("pkg::m"), "pkg/m/", "a.b.c.html"), Ok(None)));
}

#[test]
fn other_extensions_give_nothing() {
    assert!(matches!(parse_docset_entry(Some("pkg"), "pkg/", "struct.Foo.js"), Ok(None)));
    assert!(matches!(parse_docset_entry(None, "", "index.htm"), Ok(None)));
    assert!(matches!(parse_docset_entry(Some("pkg"), "pkg/", ".html"), Ok(None)));
    assert!(!is_html_file(".html"));
    assert!(is_html_file("x.html"));
}

#[test]
fn struct_page_in_module() {
    let (name, ty, path) = entry(Some("pkg::mod"), "pkg/mod/", "struct.Foo.html");
    assert_eq!(name, "pkg::mod::Foo");
    assert_eq!(ty, EntryType::Struct);
    assert_eq!(path, "pkg/mod/struct.Foo.html");
}

#[test]
fn every_kind_token_maps_to_its_kind() {
    let table = [
        ("const", EntryType::Constant),
        ("enum", EntryType::Enum),
        ("fn", EntryType::Function),
        ("macro", EntryType::Macro),
        ("trait", EntryType::Trait),
        ("struct", EntryType::Struct),
        ("type", EntryType::Type),
    ];
    for (token, kind) in table {
        assert_eq!(kind_from_token(token), Some(kind));
        let file = format!("{}.Item.html", token);
        let (name, ty, path) = entry(Some("krate"), "krate/", &file);
        assert_eq!(name, "krate::Item");
        assert_eq!(ty, kind);
        assert_eq!(path, format!("krate/{}", file));
    }
    assert_eq!(kind_from_token("union"), None);
    assert_eq!(kind_from_token("index"), None);
}

#[test]
fn package_index_page() {
    let (name, ty, path) = entry(Some("mycrate"), "mycrate/", "index.html");
    assert_eq!(name, "mycrate");
    assert_eq!(ty, EntryType::Package);
    assert_eq!(path, "mycrate/index.html");
}

#[test]
fn module_index_page_keeps_index_suffix() {
    let (name, ty, path) = entry(Some("mycrate::sub"), "mycrate/sub/", "index.html");
    assert_eq!(name, "mycrate::sub::index");
    assert_eq!(ty, EntryType::Module);
    assert_eq!(path, "mycrate/sub/index.html");
}

#[test]
fn root_index_page_gives_nothing() {
    assert!(matches!(parse_docset_entry(None, "", "index.html"), Ok(None)));
}

#[test]
fn kind_page_without_module_is_malformed() {
    match parse_docset_entry(None, "", "fn.main.html") {
        Err(Error::MalformedEntry { path }) => assert_eq!(path, "fn.main.html"),
        other => panic!("expected a malformed entry, got {:?}", other),
    }
}

#[test]
fn kind_names() {
    assert_eq!(EntryType::Function.to_string(), "Function");
    assert_eq!(EntryType::Struct.to_string(), "Struct");
    assert_eq!(EntryType::Package.to_string(), "Package");
    assert_eq!(EntryType::Constant.to_string(), "Constant");
    assert_eq!(EntryType::Type.to_string(), "Type");
}
