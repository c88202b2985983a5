use cargo_docset::common::{EntryType, Error};
use cargo_docset::walk::{is_skipped_dir, subdir_path, walk_docs, DocNode};

fn file(name: &str) -> DocNode {
    DocNode::File(name.to_string())
}

fn dir(name: &str, children: Vec<DocNode>) -> DocNode {
    DocNode::Dir(name.to_string(), children)
}

fn triples(root: &Vec<DocNode>) -> Vec<(String, EntryType, String)> {
    let mut v: Vec<_> = walk_docs(root)
        .expect("the walk succeeds")
        .into_iter()
        .map(|e| (e.name, e.ty, e.path))
        .collect();
    v.sort_by(|a, b| a.2.cmp(&b.2));
    v
}

fn sample_tree(extra_root: Vec<DocNode>) -> Vec<DocNode> {
    let mut root = vec![
        file("index.html"),
        file("settings.html"),
        file("search-index.js"),
        dir(
            "mycrate",
            vec![
                file("index.html"),
                file("struct.Foo.html"),
                file("fn.run.html"),
                dir("sub", vec![file("index.html"), file("enum.Kind.html")]),
            ],
        ),
    ];
    root.extend(extra_root);
    root
}

#[test]
fn walk_builds_qualified_names() {
    let got = triples(&sample_tree(vec![]));
    let want = vec![
        ("mycrate::run".to_string(), EntryType::Function, "mycrate/fn.run.html".to_string()),
        ("mycrate".to_string(), EntryType::Package, "mycrate/index.html".to_string()),
        ("mycrate::Foo".to_string(), EntryType::Struct, "mycrate/struct.Foo.html".to_string()),
        ("mycrate::sub::Kind".to_string(), EntryType::Enum, "mycrate/sub/enum.Kind.html".to_string()),
        ("mycrate::sub::index".to_string(), EntryType::Module, "mycrate/sub/index.html".to_string()),
    ];
    assert_eq!(got, want);
}

#[test]
fn walk_puts_local_entries_before_subdirectories() {
    let root = vec![dir(
        "k",
        vec![dir("a", vec![file("fn.f.html")]), file("struct.S.html")],
    )];
    let got: Vec<String> = walk_docs(&root).unwrap().into_iter().map(|e| e.name).collect();
    assert_eq!(got, vec!["k::S".to_string(), "k::a::f".to_string()]);
}

#[test]
fn root_src_and_implementors_are_skipped() {
    let plain = triples(&sample_tree(vec![]));
    let with_skipped = triples(&sample_tree(vec![
        dir("src", vec![dir("mycrate", vec![file("struct.Hidden.html"), file("index.html")])]),
        dir("implementors", vec![dir("core", vec![file("trait.Clone.html")])]),
    ]));
    assert_eq!(plain, with_skipped);
}

#[test]
fn nested_src_and_implementors_are_walked() {
    let root = vec![dir(
        "k",
        vec![
            dir("src", vec![file("struct.A.html")]),
            dir("implementors", vec![file("trait.B.html")]),
        ],
    )];
    let got = triples(&root);
    assert_eq!(
        got,
        vec![
            ("k::implementors::B".to_string(), EntryType::Trait, "k/implementors/trait.B.html".to_string()),
            ("k::src::A".to_string(), EntryType::Struct, "k/src/struct.A.html".to_string()),
        ]
    );
    assert!(is_skipped_dir(None, "src"));
    assert!(is_skipped_dir(None, "implementors"));
    assert!(!is_skipped_dir(Some("k"), "src"));
    assert!(!is_skipped_dir(None, "k"));
}

#[test]
fn empty_tree_gives_no_entries() {
    assert!(walk_docs(&vec![]).unwrap().is_empty());
    let only_skipped = vec![dir("src", vec![file("struct.X.html")])];
    assert!(walk_docs(&only_skipped).unwrap().is_empty());
}

#[test]
fn kind_page_at_root_fails_the_walk() {
    let root = vec![file("struct.Stray.html"), dir("k", vec![file("fn.f.html")])];
    match walk_docs(&root) {
        Err(Error::MalformedEntry { path }) => assert_eq!(path, "struct.Stray.html"),
        other => panic!("expected a malformed entry, got {:?}", other),
    }
}

#[test]
fn subdirectory_paths() {
    assert_eq!(subdir_path(None, "k"), "k");
    assert_eq!(subdir_path(Some("k"), "m"), "k::m");
    assert_eq!(subdir_path(Some("k::m"), "n"), "k::m::n");
}

#[test]
fn walking_twice_gives_the_same_entries() {
    let tree = sample_tree(vec![]);
    assert_eq!(triples(&tree), triples(&tree));
}
