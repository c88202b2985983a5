//! The entry model: one documentation symbol and its kind.

use vstd::prelude::*;

verus! {

/// The kinds of symbols that a docset index knows of.
#[derive(Debug, Clone, Copy, PartialEq, Eq, Structural)]
pub enum EntryType {
    Constant,
    Enum,
    Function,
    Macro,
    Module,
    /// A crate.
    Package,
    Struct,
    Trait,
    Type,
}

/// The canonical, capitalised name of a kind, as stored in the index.
pub open spec fn kind_name(k: EntryType) -> Seq<char> {
    match k {
        EntryType::Constant => "Constant"@,
        EntryType::Enum => "Enum"@,
        EntryType::Function => "Function"@,
        EntryType::Macro => "Macro"@,
        EntryType::Module => "Module"@,
        EntryType::Package => "Package"@,
        EntryType::Struct => "Struct"@,
        EntryType::Trait => "Trait"@,
        EntryType::Type => "Type"@,
    }
}

impl EntryType {
    /// The canonical name of this kind (`"Function"`, `"Struct"`, ...).
    pub fn to_string(&self) -> (r: String)
        ensures
            r@ == kind_name(*self),
    {
        let s = match self {
            EntryType::Constant => "Constant",
            EntryType::Enum => "Enum",
            EntryType::Function => "Function",
            EntryType::Macro => "Macro",
            EntryType::Module => "Module",
            EntryType::Package => "Package",
            EntryType::Struct => "Struct",
            EntryType::Trait => "Trait",
            EntryType::Type => "Type",
        };
        String::from_str(s)
    }
}

/// What an entry stands for: its qualified name, its kind and the path of its
/// page relative to the root of the documentation tree.
pub struct EntryModel {
    pub name: Seq<char>,
    pub kind: EntryType,
    pub path: Seq<char>,
}

/// One documentation symbol.
#[derive(Debug, Clone)]
pub struct DocsetEntry {
    pub name: String,
    pub ty: EntryType,
    pub path: String,
}

impl View for DocsetEntry {
    type V = EntryModel;

    open spec fn view(&self) -> EntryModel {
        EntryModel { name: self.name@, kind: self.ty, path: self.path@ }
    }
}

impl DocsetEntry {
    pub fn new(name: String, ty: EntryType, path: String) -> (r: DocsetEntry)
        ensures
            r@ == (EntryModel { name: name@, kind: ty, path: path@ }),
    {
        DocsetEntry { name, ty, path }
    }
}

/// The failures of the pipeline.
#[derive(Debug)]
pub enum Error {
    /// `cargo doc` ended with a failure status.
    CargoDoc { code: Option<i32> },
    /// `cargo clean --doc` ended with a failure status.
    CargoClean { code: Option<i32> },
    /// `cargo metadata` failed.
    CargoMetadata { message: String },
    /// A process could not be started.
    Spawn { message: String },
    /// The current directory could not be found.
    Cwd { message: String },
    /// A directory or a file could not be read.
    IoRead { message: String },
    /// A directory or a file could not be written.
    IoWrite { message: String },
    /// The search index could not be built.
    Sqlite { message: String },
    /// The command-line arguments do not fit together.
    Args { msg: String },
    /// A `<kind>.<name>.html` page stands outside of any module.
    MalformedEntry { path: String },
}

} // verus!
