use cargo_docset::layout::{assembly_steps, bundle_layout, AssemblyStep};
use cargo_docset::plist::{descriptor_fields, info_plist, missing_keyword_notice, render_field, PlistField, PlistValue};
use cargo_docset::report::{error, warn};

fn keys(fields: &[PlistField]) -> Vec<&str> {
    fields.iter().map(|f| f.key.as_str()).collect()
}

#[test]
fn descriptor_without_keyword_has_no_identifier_or_family() {
    let fields = descriptor_fields("My Docs", Some("mycrate"), None);
    assert_eq!(keys(&fields), vec!["CFBundleName", "dashIndexFilePath", "isDashDocset", "isJavaScriptEnabled"]);
    let text = info_plist("My Docs", Some("mycrate"), None);
    assert!(!text.contains("CFBundleIdentifier"));
    assert!(!text.contains("DocSetPlatformFamily"));
    assert!(text.contains("<key>CFBundleName</key><string>My Docs</string>"));
    assert!(missing_keyword_notice(None).is_some());
}

#[test]
fn descriptor_with_keyword_sets_identifier_and_family() {
    let fields = descriptor_fields("My Docs", None, Some("dp1"));
    assert_eq!(
        keys(&fields),
        vec!["CFBundleIdentifier", "CFBundleName", "DocSetPlatformFamily", "isDashDocset", "isJavaScriptEnabled"]
    );
    match &fields[0].value {
        PlistValue::Text(v) => assert_eq!(v, "dp1"),
        PlistValue::True => panic!("the identifier holds text"),
    }
    match &fields[2].value {
        PlistValue::Text(v) => assert_eq!(v, "dp1"),
        PlistValue::True => panic!("the family holds text"),
    }
    assert!(missing_keyword_notice(Some("dp1")).is_none());
}

#[test]
fn descriptor_index_page_points_into_the_package() {
    let fields = descriptor_fields("n", Some("member1"), Some("k"));
    let index = fields.iter().find(|f| f.key == "dashIndexFilePath").unwrap();
    match &index.value {
        PlistValue::Text(v) => assert_eq!(v, "member1/index.html"),
        PlistValue::True => panic!("the index page holds text"),
    }
}

#[test]
fn descriptor_text_is_exact() {
    let text = info_plist("N", None, Some("kw"));
    let want = "<?xml version=\"1.0\" encoding=\"UTF-8\"?>\n\
<!DOCTYPE plist PUBLIC \"-//Apple//DTD PLIST 1.0//EN\" \"http://www.apple.com/DTDs/PropertyList-1.0.dtd\">\n\
<plist version=\"1.0\">\n\
<dict>\n\
<key>CFBundleIdentifier</key><string>kw</string>\n\
<key>CFBundleName</key><string>N</string>\n\
<key>DocSetPlatformFamily</key><string>kw</string>\n\
<key>isDashDocset</key><true/>\n\
<key>isJavaScriptEnabled</key><true/>\n\
</dict>\n\
</plist>\n";
    assert_eq!(text, want);
    let f = PlistField { key: "a".to_string(), value: PlistValue::True };
    assert_eq!(render_field(&f), "<key>a</key><true/>\n");
}

#[test]
fn bundle_layout_places() {
    let l = bundle_layout("My Docs");
    assert_eq!(l.docs, vec!["doc"]);
    assert_eq!(l.bundle, vec!["docset", "My Docs.docset"]);
    assert_eq!(l.resources, vec!["docset", "My Docs.docset", "Contents", "Resources"]);
    assert_eq!(l.documents, vec!["docset", "My Docs.docset", "Contents", "Documents"]);
    assert_eq!(l.index_file, vec!["docset", "My Docs.docset", "Contents", "Resources", "docSet.dsidx"]);
    assert_eq!(l.descriptor_file, vec!["docset", "My Docs.docset", "Contents", "Info.plist"]);
}

#[test]
fn existing_bundle_is_removed_first() {
    let fresh = vec![
        AssemblyStep::CreateDirs,
        AssemblyStep::WriteIndex,
        AssemblyStep::CopyDocuments,
        AssemblyStep::WriteDescriptor,
    ];
    assert_eq!(assembly_steps(false), fresh);
    let mut again = vec![AssemblyStep::RemoveBundle];
    again.extend(fresh);
    assert_eq!(assembly_steps(true), again);
}

#[test]
fn report_lines() {
    assert_eq!(warn("no keyword"), "Warning: no keyword");
    assert_eq!(error("it broke"), "Error: it broke");
}
