//! Classification of one file of a rustdoc tree into a docset entry.

use vstd::prelude::*;

use crate::common::{DocsetEntry, EntryModel, EntryType, Error};
use crate::text::{
    contains_separator, has_separator, join_qualified, opt_view, qualified, same_text, split_dots,
    split_dots_of, views,
};

verus! {

/// Whether a file name carries the `html` extension: it ends in `.html` and
/// has something before that dot.
pub open spec fn is_html_name(f: Seq<char>) -> bool {
    f.len() > 5 && f.subrange(f.len() - 5, f.len() as int) == ".html"@
}

/// The kind that a leading file-name token stands for, if any.
pub open spec fn kind_of_token(t: Seq<char>) -> Option<EntryType> {
    if t == "const"@ {
        Some(EntryType::Constant)
    } else if t == "enum"@ {
        Some(EntryType::Enum)
    } else if t == "fn"@ {
        Some(EntryType::Function)
    } else if t == "macro"@ {
        Some(EntryType::Macro)
    } else if t == "trait"@ {
        Some(EntryType::Trait)
    } else if t == "struct"@ {
        Some(EntryType::Struct)
    } else if t == "type"@ {
        Some(EntryType::Type)
    } else {
        None
    }
}

/// What a file named `file`, whose page lies at `path`, stands for in a
/// directory whose qualified path is `qual_path` (`None` at the root of the
/// tree). `Err` marks a `<kind>.<name>.html` page with no enclosing module.
pub open spec fn classify(
    qual_path: Option<Seq<char>>,
    path: Seq<char>,
    file: Seq<char>,
) -> Result<Option<EntryModel>, ()> {
    if !is_html_name(file) {
        Ok(None)
    } else {
        let t = split_dots(file);
        if t.len() == 2 {
            if t[0] == "index"@ {
                match qual_path {
                    Some(q) => if has_separator(q) {
                        Ok(Some(EntryModel { name: qualified(q, t[0]), kind: EntryType::Module, path }))
                    } else {
                        Ok(Some(EntryModel { name: q, kind: EntryType::Package, path }))
                    },
                    None => Ok(None),
                }
            } else {
                Ok(None)
            }
        } else if t.len() == 3 {
            match kind_of_token(t[0]) {
                Some(k) => match qual_path {
                    Some(q) => Ok(Some(EntryModel { name: qualified(q, t[1]), kind: k, path })),
                    None => Err(()),
                },
                None => Ok(None),
            }
        } else {
            Ok(None)
        }
    }
}

/// Whether the file name carries the `html` extension.
pub fn is_html_file(file_name: &str) -> (r: bool)
    ensures
        r == is_html_name(file_name@),
{
    let n = file_name.unicode_len();
    n > 5 && same_text(file_name.substring_char(n - 5, n), ".html")
}

/// The kind named by the leading token of a file name.
pub fn kind_from_token(t: &str) -> (r: Option<EntryType>)
    ensures
        r == kind_of_token(t@),
{
    if same_text(t, "const") {
        Some(EntryType::Constant)
    } else if same_text(t, "enum") {
        Some(EntryType::Enum)
    } else if same_text(t, "fn") {
        Some(EntryType::Function)
    } else if same_text(t, "macro") {
        Some(EntryType::Macro)
    } else if same_text(t, "trait") {
        Some(EntryType::Trait)
    } else if same_text(t, "struct") {
        Some(EntryType::Struct)
    } else if same_text(t, "type") {
        Some(EntryType::Type)
    } else {
        None
    }
}

/// Classifies the file `file_name` of the directory whose qualified path is
/// `qual_path` and whose path relative to the tree root is `dir_prefix`
/// (empty at the root, else ending in `/`).
pub fn parse_docset_entry(qual_path: Option<&str>, dir_prefix: &str, file_name: &str) -> (r:
    Result<Option<DocsetEntry>, Error>)
    ensures
        match (r, classify(opt_view(qual_path), dir_prefix@ + file_name@, file_name@)) {
            (Ok(Some(e)), Ok(Some(m))) => e@ == m,
            (Ok(None), Ok(None)) => true,
            (Err(Error::MalformedEntry { path }), Err(())) => path@ == dir_prefix@ + file_name@,
            _ => false,
        },
{
    if !is_html_file(file_name) {
        return Ok(None);
    }
    let parts = split_dots_of(file_name);
    let ghost t = split_dots(file_name@);
    assert(views(parts@) == t);
    let page = String::from_str(dir_prefix).concat(file_name);
    if parts.len() == 2 {
        assert(parts[0]@ == t[0]);
        if same_text(parts[0].as_str(), "index") {
            match qual_path {
                Some(q) => if contains_separator(q) {
                    let name = join_qualified(q, parts[0].as_str());
                    Ok(Some(DocsetEntry::new(name, EntryType::Module, page)))
                } else {
                    Ok(Some(DocsetEntry::new(String::from_str(q), EntryType::Package, page)))
                },
                None => Ok(None),
            }
        } else {
            Ok(None)
        }
    } else if parts.len() == 3 {
        assert(parts[0]@ == t[0]);
        assert(parts[1]@ == t[1]);
        match kind_from_token(parts[0].as_str()) {
            Some(k) => match qual_path {
                Some(q) => {
                    let name = join_qualified(q, parts[1].as_str());
                    Ok(Some(DocsetEntry::new(name, k, page)))
                },
                None => Err(Error::MalformedEntry { path: page }),
            },
            None => Ok(None),
        }
    } else {
        Ok(None)
    }
}

/// A page whose name is neither `index.html` nor `<kind>.<name>.html` with a
/// known kind gives no entry, wherever it stands.
pub proof fn lemma_unrecognised_page_ignored(
    qual_path: Option<Seq<char>>,
    path: Seq<char>,
    file: Seq<char>,
)
    requires
        !(split_dots(file).len() == 2 && split_dots(file)[0] == "index"@),
        !(split_dots(file).len() == 3 && kind_of_token(split_dots(file)[0]) is Some),
    ensures
        classify(qual_path, path, file) == Ok::<Option<EntryModel>, ()>(None),
{
}

/// A page `<kind>.<name>.html` with a known kind, in a module `q`, gives the
/// entry `q::name` of exactly the kind that the token names.
pub proof fn lemma_kind_page(q: Seq<char>, path: Seq<char>, file: Seq<char>)
    requires
        is_html_name(file),
        split_dots(file).len() == 3,
        kind_of_token(split_dots(file)[0]) is Some,
    ensures
        classify(Some(q), path, file) == Ok::<Option<EntryModel>, ()>(
            Some(
                EntryModel {
                    name: qualified(q, split_dots(file)[1]),
                    kind: kind_of_token(split_dots(file)[0])->Some_0,
                    path,
                },
            ),
        ),
{
}

} // verus!
