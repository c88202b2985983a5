//! Where things stand in a docset bundle, and the order in which a bundle is
//! assembled.

use vstd::prelude::*;

use crate::text::views;

verus! {

/// The rustdoc tree, under the target directory.
pub const DOC_DIR: &'static str = "doc";

/// The directory of the bundles, under the target directory.
pub const BUNDLES_DIR: &'static str = "docset";

pub const CONTENTS_DIR: &'static str = "Contents";

pub const RESOURCES_DIR: &'static str = "Resources";

pub const DOCUMENTS_DIR: &'static str = "Documents";

/// The search index, in the resources directory.
pub const INDEX_FILE: &'static str = "docSet.dsidx";

/// The descriptor, in the contents directory.
pub const DESCRIPTOR_FILE: &'static str = "Info.plist";

/// The places of a bundle, each as the names of the directories (and the
/// file) that lead to it from the target directory.
#[derive(Debug, Clone)]
pub struct BundleLayout {
    /// The rustdoc tree that the bundle is made from.
    pub docs: Vec<String>,
    /// The bundle itself.
    pub bundle: Vec<String>,
    pub resources: Vec<String>,
    pub documents: Vec<String>,
    pub index_file: Vec<String>,
    pub descriptor_file: Vec<String>,
}

/// The name of the bundle directory of a docset named `name`.
pub open spec fn bundle_dir_name(name: Seq<char>) -> Seq<char> {
    name + ".docset"@
}

/// The places of the bundle of a docset named `name`.
pub open spec fn layout_of(name: Seq<char>, l: BundleLayout) -> bool {
    let bundle = seq![BUNDLES_DIR@, bundle_dir_name(name)];
    &&& views(l.docs@) == seq![DOC_DIR@]
    &&& views(l.bundle@) == bundle
    &&& views(l.resources@) == bundle + seq![CONTENTS_DIR@, RESOURCES_DIR@]
    &&& views(l.documents@) == bundle + seq![CONTENTS_DIR@, DOCUMENTS_DIR@]
    &&& views(l.index_file@) == bundle + seq![CONTENTS_DIR@, RESOURCES_DIR@, INDEX_FILE@]
    &&& views(l.descriptor_file@) == bundle + seq![CONTENTS_DIR@, DESCRIPTOR_FILE@]
}

fn path_of(parts: &[&str]) -> (r: Vec<String>)
    ensures
        r@.len() == parts@.len(),
        forall|i: int| 0 <= i < parts@.len() ==> #[trigger] r@[i]@ == parts@[i]@,
{
    let mut r: Vec<String> = Vec::new();
    let mut i: usize = 0;
    while i < parts.len()
        invariant
            i <= parts@.len(),
            r@.len() == i,
            forall|j: int| 0 <= j < i ==> #[trigger] r@[j]@ == parts@[j]@,
        decreases parts@.len() - i,
    {
        r.push(String::from_str(parts[i]));
        i = i + 1;
    }
    r
}

/// The places of the bundle of a docset named `name`.
pub fn bundle_layout(name: &str) -> (r: BundleLayout)
    ensures
        layout_of(name@, r),
{
    let dir = String::from_str(name).concat(".docset");
    let d = dir.as_str();
    let docs = path_of(&[DOC_DIR]);
    let bundle = path_of(&[BUNDLES_DIR, d]);
    let resources = path_of(&[BUNDLES_DIR, d, CONTENTS_DIR, RESOURCES_DIR]);
    let documents = path_of(&[BUNDLES_DIR, d, CONTENTS_DIR, DOCUMENTS_DIR]);
    let index_file = path_of(&[BUNDLES_DIR, d, CONTENTS_DIR, RESOURCES_DIR, INDEX_FILE]);
    let descriptor_file = path_of(&[BUNDLES_DIR, d, CONTENTS_DIR, DESCRIPTOR_FILE]);
    let r = BundleLayout { docs, bundle, resources, documents, index_file, descriptor_file };
    assert(views(r.docs@) =~= seq![DOC_DIR@]);
    assert(views(r.bundle@) =~= seq![BUNDLES_DIR@, bundle_dir_name(name@)]);
    assert(views(r.resources@) =~= seq![BUNDLES_DIR@, bundle_dir_name(name@)] + seq![CONTENTS_DIR@, RESOURCES_DIR@]);
    assert(views(r.documents@) =~= seq![BUNDLES_DIR@, bundle_dir_name(name@)] + seq![CONTENTS_DIR@, DOCUMENTS_DIR@]);
    assert(views(r.index_file@) =~= seq![BUNDLES_DIR@, bundle_dir_name(name@)] + seq![
        CONTENTS_DIR@,
        RESOURCES_DIR@,
        INDEX_FILE@,
    ]);
    assert(views(r.descriptor_file@) =~= seq![BUNDLES_DIR@, bundle_dir_name(name@)] + seq![
        CONTENTS_DIR@,
        DESCRIPTOR_FILE@,
    ]);
    r
}

/// One step of the assembly of a bundle.
#[derive(Debug, Clone, Copy, PartialEq, Eq, Structural)]
pub enum AssemblyStep {
    /// Delete the bundle that is there, whole.
    RemoveBundle,
    /// Create the resources and documents directories.
    CreateDirs,
    /// Walk the rustdoc tree and write the search index.
    WriteIndex,
    /// Copy the rustdoc tree into the documents directory.
    CopyDocuments,
    /// Write the descriptor.
    WriteDescriptor,
}

/// The steps that build a bundle into a place that is empty.
pub open spec fn fresh_steps() -> Seq<AssemblyStep> {
    seq![
        AssemblyStep::CreateDirs,
        AssemblyStep::WriteIndex,
        AssemblyStep::CopyDocuments,
        AssemblyStep::WriteDescriptor,
    ]
}

/// The steps of an assembly, each depending on the one before: a bundle
/// that is there is deleted first, then one is built afresh.
pub open spec fn assembly_model(bundle_exists: bool) -> Seq<AssemblyStep> {
    if bundle_exists {
        seq![AssemblyStep::RemoveBundle] + fresh_steps()
    } else {
        fresh_steps()
    }
}

/// The steps of the assembly of a bundle, in order.
pub fn assembly_steps(bundle_exists: bool) -> (r: Vec<AssemblyStep>)
    ensures
        r@ == assembly_model(bundle_exists),
{
    let mut steps: Vec<AssemblyStep> = Vec::new();
    if bundle_exists {
        steps.push(AssemblyStep::RemoveBundle);
    }
    steps.push(AssemblyStep::CreateDirs);
    steps.push(AssemblyStep::WriteIndex);
    steps.push(AssemblyStep::CopyDocuments);
    steps.push(AssemblyStep::WriteDescriptor);
    assert(steps@ =~= assembly_model(bundle_exists));
    steps
}

/// A second run builds the same bundle as the first: when a bundle is
/// there, it is deleted before anything is written, and the steps that
/// follow are those of a build into an empty place; the writing steps then
/// come once each, so nothing of an earlier bundle is kept or added to.
pub proof fn lemma_rebuild_from_scratch(bundle_exists: bool)
    ensures
        assembly_model(bundle_exists) == (if bundle_exists {
            seq![AssemblyStep::RemoveBundle]
        } else {
            Seq::<AssemblyStep>::empty()
        }) + assembly_model(false),
        forall|i: int|
            0 <= i < fresh_steps().len() ==> #[trigger] fresh_steps()[i] != AssemblyStep::RemoveBundle,
        forall|i: int, j: int|
            0 <= i < j < fresh_steps().len() ==> #[trigger] fresh_steps()[i] != #[trigger] fresh_steps()[j],
{
    assert(Seq::<AssemblyStep>::empty() + fresh_steps() =~= fresh_steps());
}

} // verus!
