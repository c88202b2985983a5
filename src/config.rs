//! The settings of a docset run, and what they make of the cargo commands and
//! of the docset's name and index page.

use vstd::prelude::*;

use crate::common::Error;
use crate::text::views;

verus! {

/// Which manifest cargo reads.
#[derive(Debug, Clone, Default)]
pub struct ManifestArgs {
    pub manifest_path: Option<String>,
}

/// Which packages of a workspace are documented.
#[derive(Debug, Clone, Default)]
pub struct WorkspaceArgs {
    pub package: Vec<String>,
    pub workspace: bool,
    pub all: bool,
    pub exclude: Vec<String>,
}

/// Which features are enabled.
#[derive(Debug, Clone, Default)]
pub struct FeatureArgs {
    pub all_features: bool,
    pub no_default_features: bool,
    pub features: Vec<String>,
}

/// The settings of one docset run.
#[derive(Debug, Clone)]
pub struct GenerateConfig {
    pub manifest: ManifestArgs,
    pub workspace: WorkspaceArgs,
    pub features: FeatureArgs,
    pub no_dependencies: bool,
    pub doc_private_items: bool,
    pub target: Option<String>,
    pub target_dir: Option<String>,
    pub no_clean: bool,
    pub lib: bool,
    pub bin: Vec<String>,
    pub bins: bool,
    pub docset_name: Option<String>,
    pub docset_index: Option<String>,
    pub platform_family: Option<String>,
}

/// What the workspace tells of itself: the name of its root package, if it
/// has one, and the name of its root directory.
#[derive(Debug, Clone)]
pub struct WorkspaceInfo {
    pub root_package: Option<String>,
    pub root_dir_name: String,
}

/// Whether a configuration is the default one: nothing selected, nothing set.
pub open spec fn is_default_config(c: GenerateConfig) -> bool {
    &&& c.manifest.manifest_path is None
    &&& c.workspace.package@.len() == 0
    &&& !c.workspace.workspace
    &&& !c.workspace.all
    &&& c.workspace.exclude@.len() == 0
    &&& !c.features.all_features
    &&& !c.features.no_default_features
    &&& c.features.features@.len() == 0
    &&& !c.no_dependencies
    &&& !c.doc_private_items
    &&& c.target is None
    &&& c.target_dir is None
    &&& !c.no_clean
    &&& !c.lib
    &&& c.bin@.len() == 0
    &&& !c.bins
    &&& c.docset_name is None
    &&& c.docset_index is None
    &&& c.platform_family is None
}

impl Default for GenerateConfig {
    fn default() -> (r: GenerateConfig)
        ensures
            is_default_config(r),
    {
        GenerateConfig {
            manifest: ManifestArgs { manifest_path: None },
            workspace: WorkspaceArgs {
                package: Vec::new(),
                workspace: false,
                all: false,
                exclude: Vec::new(),
            },
            features: FeatureArgs {
                all_features: false,
                no_default_features: false,
                features: Vec::new(),
            },
            no_dependencies: false,
            doc_private_items: false,
            target: None,
            target_dir: None,
            no_clean: false,
            lib: false,
            bin: Vec::new(),
            bins: false,
            docset_name: None,
            docset_index: None,
            platform_family: None,
        }
    }
}

/// `flag v1 flag v2 ...`: the flag before each value.
pub open spec fn flag_pairs(flag: Seq<char>, vals: Seq<Seq<char>>) -> Seq<Seq<char>>
    decreases vals.len(),
{
    if vals.len() == 0 {
        Seq::empty()
    } else {
        flag_pairs(flag, vals.drop_last()) + seq![flag, vals.last()]
    }
}

/// The flag alone when `b` holds, else nothing.
pub open spec fn flag_if(b: bool, flag: Seq<char>) -> Seq<Seq<char>> {
    if b {
        seq![flag]
    } else {
        Seq::empty()
    }
}

/// The flag and the value when there is a value, else nothing.
pub open spec fn flag_value(flag: Seq<char>, v: Option<String>) -> Seq<Seq<char>> {
    match v {
        Some(s) => seq![flag, s@],
        None => Seq::empty(),
    }
}

/// Whether the whole workspace is selected.
pub open spec fn whole_workspace(c: GenerateConfig) -> bool {
    c.workspace.workspace || c.workspace.all
}

/// The arguments that follow `cargo doc`.
pub open spec fn doc_args(c: GenerateConfig) -> Seq<Seq<char>> {
    flag_value("--manifest-path"@, c.manifest.manifest_path) + (if whole_workspace(c) {
        seq!["--workspace"@] + flag_pairs("--exclude"@, views(c.workspace.exclude@))
    } else {
        flag_pairs("--package"@, views(c.workspace.package@))
    }) + flag_if(c.no_dependencies, "--no-deps"@) + flag_if(c.doc_private_items, "--document-private-items"@)
        + (if c.features.features@.len() > 0 {
        seq!["--features"@] + views(c.features.features@)
    } else {
        Seq::empty()
    }) + flag_if(c.features.no_default_features, "--no-default-features"@) + flag_if(
        c.features.all_features,
        "--all-features"@,
    ) + flag_value("--target"@, c.target) + flag_value("--target-dir"@, c.target_dir) + flag_if(
        c.lib,
        "--lib"@,
    ) + flag_if(c.bins, "--bins"@)
}

/// The arguments of `cargo clean` that remove the documentation.
pub open spec fn clean_args(c: GenerateConfig) -> Seq<Seq<char>> {
    seq!["clean"@] + flag_value("--manifest-path"@, c.manifest.manifest_path) + seq!["--doc"@]
}

/// Whether the settings select packages to leave out without selecting the
/// whole workspace.
pub open spec fn exclude_without_workspace(c: GenerateConfig) -> bool {
    c.workspace.exclude@.len() > 0 && !whole_workspace(c)
}

/// Whether exactly one package is selected, and no whole workspace.
pub open spec fn single_package(c: GenerateConfig) -> bool {
    !c.workspace.all && c.workspace.package@.len() == 1
}

/// The display name of the docset: the one given; else the one package
/// selected; else the workspace's root package; else the name of the
/// workspace's directory.
pub open spec fn docset_name_of(c: GenerateConfig, w: WorkspaceInfo) -> Seq<char> {
    match c.docset_name {
        Some(n) => n@,
        None => if single_package(c) {
            c.workspace.package@[0]@
        } else {
            match w.root_package {
                Some(p) => p@,
                None => w.root_dir_name@,
            }
        },
    }
}

/// The package whose index page the docset opens on, chosen as the name is,
/// except that there may be none.
pub open spec fn docset_index_of(c: GenerateConfig, w: WorkspaceInfo) -> Option<Seq<char>> {
    match c.docset_index {
        Some(n) => Some(n@),
        None => if single_package(c) {
            Some(c.workspace.package@[0]@)
        } else {
            match w.root_package {
                Some(p) => Some(p@),
                None => None,
            }
        },
    }
}

fn push_flag(args: &mut Vec<String>, flag: &str)
    ensures
        views(final(args)@) == views(old(args)@).push(flag@),
{
    args.push(String::from_str(flag));
    assert(views(args@) =~= views(old(args)@).push(flag@));
}

fn push_flag_value(args: &mut Vec<String>, flag: &str, v: Option<String>)
    ensures
        views(final(args)@) == views(old(args)@) + flag_value(flag@, v),
{
    if let Some(s) = v {
        push_flag(args, flag);
        let ghost mid = views(args@);
        args.push(s);
        assert(views(args@) =~= mid.push(s@));
    }
    assert(views(args@) =~= views(old(args)@) + flag_value(flag@, v));
}

fn push_flag_pairs(args: &mut Vec<String>, flag: &str, vals: Vec<String>)
    ensures
        views(final(args)@) == views(old(args)@) + flag_pairs(flag@, views(vals@)),
{
    let ghost start = views(args@);
    let mut i: usize = 0;
    assert(views(vals@).take(0) =~= Seq::<Seq<char>>::empty());
    assert(start + Seq::<Seq<char>>::empty() =~= start);
    while i < vals.len()
        invariant
            i <= vals@.len(),
            start == views(old(args)@),
            views(args@) == start + flag_pairs(flag@, views(vals@).take(i as int)),
        decreases vals@.len() - i,
    {
        let ghost before = views(args@);
        push_flag(args, flag);
        let ghost mid = views(args@);
        let v = vals[i].clone();
        args.push(v);
        assert(views(args@) =~= mid.push(v@));
        assert(views(vals@)[i as int] == v@);
        assert(views(vals@).take(i + 1).drop_last() =~= views(vals@).take(i as int));
        assert(views(args@) =~= before + seq![flag@, views(vals@)[i as int]]);
        i = i + 1;
    }
    assert(views(vals@).take(vals@.len() as int) =~= views(vals@));
}

fn push_all(args: &mut Vec<String>, vals: Vec<String>)
    ensures
        views(final(args)@) == views(old(args)@) + views(vals@),
{
    let ghost start = views(args@);
    let mut i: usize = 0;
    assert(start + views(vals@).take(0) =~= start);
    while i < vals.len()
        invariant
            i <= vals@.len(),
            start == views(old(args)@),
            views(args@) == start + views(vals@).take(i as int),
        decreases vals@.len() - i,
    {
        let ghost before = views(args@);
        args.push(vals[i].clone());
        assert(views(args@) =~= before.push(views(vals@)[i as int]));
        assert(start + views(vals@).take(i + 1) =~= (start + views(vals@).take(i as int)).push(
            views(vals@)[i as int],
        ));
        i = i + 1;
    }
    assert(views(vals@).take(vals@.len() as int) =~= views(vals@));
}

impl GenerateConfig {
    /// The arguments that follow `cargo doc` for these settings.
    pub fn into_args(self) -> (r: Vec<String>)
        ensures
            views(r@) == doc_args(self),
    {
        let ghost c = self;
        let mut args: Vec<String> = Vec::new();
        assert(views(args@) =~= Seq::<Seq<char>>::empty());
        push_flag_value(&mut args, "--manifest-path", self.manifest.manifest_path);
        let ghost a1 = views(args@);
        if self.workspace.workspace || self.workspace.all {
            push_flag(&mut args, "--workspace");
            push_flag_pairs(&mut args, "--exclude", self.workspace.exclude);
            assert(views(args@) =~= a1 + (seq!["--workspace"@] + flag_pairs(
                "--exclude"@,
                views(c.workspace.exclude@),
            )));
        } else {
            push_flag_pairs(&mut args, "--package", self.workspace.package);
        }
        let ghost a2 = views(args@);
        if self.no_dependencies {
            push_flag(&mut args, "--no-deps");
        }
        assert(views(args@) =~= a2 + flag_if(c.no_dependencies, "--no-deps"@));
        let ghost a3 = views(args@);
        if self.doc_private_items {
            push_flag(&mut args, "--document-private-items");
        }
        assert(views(args@) =~= a3 + flag_if(c.doc_private_items, "--document-private-items"@));
        let ghost a4 = views(args@);
        if self.features.features.len() > 0 {
            push_flag(&mut args, "--features");
            push_all(&mut args, self.features.features);
            assert(views(args@) =~= a4 + (seq!["--features"@] + views(c.features.features@)));
        } else {
            assert(views(args@) =~= a4 + Seq::<Seq<char>>::empty());
        }
        let ghost a5 = views(args@);
        if self.features.no_default_features {
            push_flag(&mut args, "--no-default-features");
        }
        assert(views(args@) =~= a5 + flag_if(c.features.no_default_features, "--no-default-features"@));
        let ghost a6 = views(args@);
        if self.features.all_features {
            push_flag(&mut args, "--all-features");
        }
        assert(views(args@) =~= a6 + flag_if(c.features.all_features, "--all-features"@));
        push_flag_value(&mut args, "--target", self.target);
        push_flag_value(&mut args, "--target-dir", self.target_dir);
        let ghost a7 = views(args@);
        if self.lib {
            push_flag(&mut args, "--lib");
        }
        assert(views(args@) =~= a7 + flag_if(c.lib, "--lib"@));
        let ghost a8 = views(args@);
        if self.bins {
            push_flag(&mut args, "--bins");
        }
        assert(views(args@) =~= a8 + flag_if(c.bins, "--bins"@));
        assert(views(args@) =~= doc_args(c));
        args
    }

    /// The arguments of `cargo clean` that remove the documentation.
    pub fn clean_args(&self) -> (r: Vec<String>)
        ensures
            views(r@) == clean_args(*self),
    {
        let mut args: Vec<String> = Vec::new();
        assert(views(args@) =~= Seq::<Seq<char>>::empty());
        push_flag(&mut args, "clean");
        push_flag_value(&mut args, "--manifest-path", self.manifest.manifest_path.clone());
        push_flag(&mut args, "--doc");
        assert(views(args@) =~= clean_args(*self));
        args
    }

    /// Checks that the settings fit together: packages are left out only
    /// from a whole workspace.
    pub fn check(&self) -> (r: Result<(), Error>)
        ensures
            r is Err <==> exclude_without_workspace(*self),
            r matches Err(e) ==> e is Args,
    {
        if self.workspace.exclude.len() > 0 && !(self.workspace.workspace || self.workspace.all) {
            Err(Error::Args { msg: String::from_str("--exclude must be used with --workspace") })
        } else {
            Ok(())
        }
    }

    /// The display name of the docset.
    pub fn docset_name(&self, info: &WorkspaceInfo) -> (r: String)
        ensures
            r@ == docset_name_of(*self, *info),
    {
        match &self.docset_name {
            Some(n) => n.clone(),
            None => if !self.workspace.all && self.workspace.package.len() == 1 {
                self.workspace.package[0].clone()
            } else {
                match &info.root_package {
                    Some(p) => p.clone(),
                    None => info.root_dir_name.clone(),
                }
            },
        }
    }

    /// The package whose index page the docset opens on, if any.
    pub fn docset_index(&self, info: &WorkspaceInfo) -> (r: Option<String>)
        ensures
            crate::text::opt_string_view(r) == docset_index_of(*self, *info),
    {
        match &self.docset_index {
            Some(n) => Some(n.clone()),
            None => if !self.workspace.all && self.workspace.package.len() == 1 {
                Some(self.workspace.package[0].clone())
            } else {
                match &info.root_package {
                    Some(p) => Some(p.clone()),
                    None => None,
                }
            },
        }
    }
}

} // verus!
