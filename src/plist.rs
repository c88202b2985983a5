//! The descriptor of a docset: an XML property list.

use vstd::prelude::*;

verus! {

/// The value of a descriptor field.
#[derive(Debug, Clone)]
pub enum PlistValue {
    Text(String),
    True,
}

/// What a descriptor field's value stands for.
pub enum ValueModel {
    Text(Seq<char>),
    True,
}

/// One key of the descriptor with its value.
#[derive(Debug, Clone)]
pub struct PlistField {
    pub key: String,
    pub value: PlistValue,
}

/// What a descriptor field stands for.
pub struct FieldModel {
    pub key: Seq<char>,
    pub value: ValueModel,
}

impl View for PlistField {
    type V = FieldModel;

    open spec fn view(&self) -> FieldModel {
        FieldModel {
            key: self.key@,
            value: match self.value {
                PlistValue::Text(s) => ValueModel::Text(s@),
                PlistValue::True => ValueModel::True,
            },
        }
    }
}

/// The views of a sequence of fields.
pub open spec fn field_views(v: Seq<PlistField>) -> Seq<FieldModel> {
    v.map_values(|f: PlistField| f@)
}

pub open spec fn text_field(key: Seq<char>, value: Seq<char>) -> FieldModel {
    FieldModel { key, value: ValueModel::Text(value) }
}

/// The page that a docset opens on: the index of the package `p`, relative
/// to the documents directory.
pub open spec fn index_page(p: Seq<char>) -> Seq<char> {
    p + "/index.html"@
}

/// The fields of the descriptor, in order: the bundle identifier (with a
/// keyword only), the display name, the index page (when one is given), the
/// platform family (with a keyword only), and the two fixed flags.
pub open spec fn descriptor(
    name: Seq<char>,
    index_package: Option<Seq<char>>,
    keyword: Option<Seq<char>>,
) -> Seq<FieldModel> {
    let identifier = match keyword {
        Some(k) => seq![text_field("CFBundleIdentifier"@, k)],
        None => Seq::empty(),
    };
    let index = match index_package {
        Some(p) => seq![text_field("dashIndexFilePath"@, index_page(p))],
        None => Seq::empty(),
    };
    let family = match keyword {
        Some(k) => seq![text_field("DocSetPlatformFamily"@, k)],
        None => Seq::empty(),
    };
    identifier + seq![text_field("CFBundleName"@, name)] + index + family + seq![
        FieldModel { key: "isDashDocset"@, value: ValueModel::True },
        FieldModel { key: "isJavaScriptEnabled"@, value: ValueModel::True },
    ]
}

/// The XML of one field.
pub open spec fn field_text(f: FieldModel) -> Seq<char> {
    match f.value {
        ValueModel::Text(v) => "<key>"@ + f.key + "</key><string>"@ + v + "</string>\n"@,
        ValueModel::True => "<key>"@ + f.key + "</key><true/>\n"@,
    }
}

/// The XML of a run of fields.
pub open spec fn fields_text(fields: Seq<FieldModel>) -> Seq<char>
    decreases fields.len(),
{
    if fields.len() == 0 {
        Seq::empty()
    } else {
        fields_text(fields.drop_last()) + field_text(fields.last())
    }
}

/// What comes before the fields of a property list.
pub const PLIST_HEAD: &'static str = "<?xml version=\"1.0\" encoding=\"UTF-8\"?>\n<!DOCTYPE plist PUBLIC \"-//Apple//DTD PLIST 1.0//EN\" \"http://www.apple.com/DTDs/PropertyList-1.0.dtd\">\n<plist version=\"1.0\">\n<dict>\n";

/// What comes after the fields of a property list.
pub const PLIST_TAIL: &'static str = "</dict>\n</plist>\n";

/// The text of a property list of the given fields.
pub open spec fn plist_text(fields: Seq<FieldModel>) -> Seq<char> {
    PLIST_HEAD@ + fields_text(fields) + PLIST_TAIL@
}

fn text_field_of(key: &str, value: String) -> (r: PlistField)
    ensures
        r@ == text_field(key@, value@),
{
    PlistField { key: String::from_str(key), value: PlistValue::Text(value) }
}

/// The fields of the descriptor of a docset named `name`, opening on the
/// index of `index_package`, searched by `keyword`.
pub fn descriptor_fields(name: &str, index_package: Option<&str>, keyword: Option<&str>) -> (r: Vec<
    PlistField,
>)
    ensures
        field_views(r@) == descriptor(
            name@,
            crate::text::opt_view(index_package),
            crate::text::opt_view(keyword),
        ),
{
    let mut fields: Vec<PlistField> = Vec::new();
    if let Some(k) = keyword {
        fields.push(text_field_of("CFBundleIdentifier", String::from_str(k)));
    }
    fields.push(text_field_of("CFBundleName", String::from_str(name)));
    if let Some(p) = index_package {
        fields.push(text_field_of("dashIndexFilePath", String::from_str(p).concat("/index.html")));
    }
    if let Some(k) = keyword {
        fields.push(text_field_of("DocSetPlatformFamily", String::from_str(k)));
    }
    fields.push(PlistField { key: String::from_str("isDashDocset"), value: PlistValue::True });
    fields.push(PlistField { key: String::from_str("isJavaScriptEnabled"), value: PlistValue::True });
    assert(field_views(fields@) =~= descriptor(
        name@,
        crate::text::opt_view(index_package),
        crate::text::opt_view(keyword),
    ));
    fields
}

/// The XML of one field.
pub fn render_field(f: &PlistField) -> (r: String)
    ensures
        r@ == field_text(f@),
{
    let open = String::from_str("<key>").concat(f.key.as_str());
    match &f.value {
        PlistValue::Text(v) => open.concat("</key><string>").concat(v.as_str()).concat("</string>\n"),
        PlistValue::True => open.concat("</key><true/>\n"),
    }
}

/// The text of a property list of the given fields.
pub fn render_plist(fields: &Vec<PlistField>) -> (r: String)
    ensures
        r@ == plist_text(field_views(fields@)),
{
    let mut body = String::from_str(PLIST_HEAD);
    let mut i: usize = 0;
    assert(field_views(fields@).take(0) =~= Seq::<FieldModel>::empty());
    while i < fields.len()
        invariant
            i <= fields@.len(),
            body@ == PLIST_HEAD@ + fields_text(field_views(fields@).take(i as int)),
        decreases fields@.len() - i,
    {
        let piece = render_field(&fields[i]);
        body.append(piece.as_str());
        assert(field_views(fields@).take(i + 1).drop_last() =~= field_views(fields@).take(i as int));
        i = i + 1;
    }
    assert(field_views(fields@).take(fields@.len() as int) =~= field_views(fields@));
    body.concat(PLIST_TAIL)
}

/// The descriptor file of a docset named `name`, opening on the index of
/// `index_package`, searched by `keyword`.
pub fn info_plist(name: &str, index_package: Option<&str>, keyword: Option<&str>) -> (r: String)
    ensures
        r@ == plist_text(
            descriptor(name@, crate::text::opt_view(index_package), crate::text::opt_view(keyword)),
        ),
{
    render_plist(&descriptor_fields(name, index_package, keyword))
}

/// Without a keyword the descriptor holds neither a bundle identifier nor a
/// platform family; with one, both are there and hold the keyword.
pub proof fn lemma_keyword_fields(
    name: Seq<char>,
    index_package: Option<Seq<char>>,
    keyword: Option<Seq<char>>,
)
    ensures
        keyword is None ==> forall|i: int|
            0 <= i < descriptor(name, index_package, keyword).len() ==> {
                let key = (#[trigger] descriptor(name, index_package, keyword)[i]).key;
                key != "CFBundleIdentifier"@ && key != "DocSetPlatformFamily"@
            },
        keyword matches Some(k) ==> exists|i: int, j: int|
            0 <= i < descriptor(name, index_package, keyword).len() && 0 <= j < descriptor(
                name,
                index_package,
                keyword,
            ).len() && #[trigger] descriptor(name, index_package, keyword)[i] == text_field(
                "CFBundleIdentifier"@,
                k,
            ) && #[trigger] descriptor(name, index_package, keyword)[j] == text_field(
                "DocSetPlatformFamily"@,
                k,
            ),
{
    reveal_strlit("CFBundleIdentifier");
    reveal_strlit("DocSetPlatformFamily");
    reveal_strlit("CFBundleName");
    reveal_strlit("dashIndexFilePath");
    reveal_strlit("isDashDocset");
    reveal_strlit("isJavaScriptEnabled");
    let d = descriptor(name, index_package, keyword);
    if let Some(k) = keyword {
        let j = if index_package is Some { 3int } else { 2int };
        assert(d[0] == text_field("CFBundleIdentifier"@, k));
        assert(d[j] == text_field("DocSetPlatformFamily"@, k));
    } else {
        assert forall|i: int| 0 <= i < d.len() implies d[i].key != "CFBundleIdentifier"@ && d[i].key
            != "DocSetPlatformFamily"@ by {
            assert(d[i].key.len() != 18 && d[i].key.len() != 20);
        }
    }
}

/// The notice given when a docset is made without a search keyword: the
/// docset is still made, with no identifier and no platform family.
pub fn missing_keyword_notice(keyword: Option<&str>) -> (r: Option<String>)
    ensures
        r is Some <==> keyword is None,
{
    match keyword {
        Some(_) => None,
        None => Some(
            String::from_str(
                "no platform family was given: the docset has no bundle identifier and no search keyword",
            ),
        ),
    }
}

} // verus!
