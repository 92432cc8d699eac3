//! The commands: locating one exact package version among resolved
//! packages, and deciding what to copy where or what to compare.
use vstd::prelude::*;
use crate::package_id::{id_text, PackageId, PackageIdModel};
use crate::snapshot::{
    is_registry, is_registry_package, package_dir, path_parent, PackageDiff, ResolvedModel,
    ResolvedPackage, models, opt_text, skipped_spec, texts,
};
use crate::version::version_text;

verus! {

/// The first lines of the throwaway manifest, up to its one dependency.
pub open spec fn manifest_head() -> Seq<char> {
    "\n[package]\nname = \"cargo-diff-temp-pkg\"\nversion = \"0.0.0\"\n\n[lib]\npath = \"./Cargo.toml\"\n\n[dependencies]\n"@
}

/// The throwaway manifest that depends on exactly `id`: its one dependency
/// line is `name = "=version"`.
pub open spec fn manifest_text(id: PackageIdModel) -> Seq<char> {
    manifest_head() + id.name + " = \"="@ + version_text(id.version) + "\"\n"@
}

/// The manifest of a throwaway project whose one dependency is pinned to
/// exactly `id`.
pub fn format_manifest(id: &PackageId) -> (r: String)
    ensures
        r@ == manifest_text(id@),
{
    let mut r = String::from_str(
        "\n[package]\nname = \"cargo-diff-temp-pkg\"\nversion = \"0.0.0\"\n\n[lib]\npath = \"./Cargo.toml\"\n\n[dependencies]\n",
    );
    r.append(id.name.as_str());
    r.append(" = \"=");
    let v = id.version.to_text();
    r.append(v.as_str());
    r.append("\"\n");
    r
}

/// `p` is the package `id` names: same name, version text the canonical
/// text of the version.
pub open spec fn is_package(p: ResolvedModel, id: PackageIdModel) -> bool {
    p.name == id.name && p.version == version_text(id.version)
}

/// Why a fetched package cannot be located.
#[derive(Debug)]
pub enum FetchError {
    /// The resolver's answer holds no package for an exactly pinned
    /// identifier: the resolver broke its own contract.
    ResolutionInconsistency { id: String },
    /// The package's manifest path has no directory.
    NoSourceDir { id: String },
}

/// Finds the source directory of the package `id` among the packages that
/// the resolver returned for a manifest pinning it: the directory of the
/// first matching package's manifest.
pub fn find_package_dir(pkgs: &Vec<ResolvedPackage>, id: &PackageId) -> (r: Result<String, FetchError>)
    ensures
        match r {
            Ok(d) => exists|j: int| {
                &&& 0 <= j < pkgs@.len()
                &&& is_package(#[trigger] pkgs@[j]@, id@)
                &&& forall|i: int| 0 <= i < j ==> !is_package(#[trigger] pkgs@[i]@, id@)
                &&& path_parent(pkgs@[j]@.manifest_path) == Some(d@)
            },
            Err(FetchError::ResolutionInconsistency { id: t }) => {
                &&& t@ == id_text(id@)
                &&& forall|i: int| 0 <= i < pkgs@.len() ==> !is_package(#[trigger] pkgs@[i]@, id@)
            },
            Err(FetchError::NoSourceDir { id: t }) => {
                &&& t@ == id_text(id@)
                &&& exists|j: int| {
                    &&& 0 <= j < pkgs@.len()
                    &&& is_package(#[trigger] pkgs@[j]@, id@)
                    &&& forall|i: int| 0 <= i < j ==> !is_package(#[trigger] pkgs@[i]@, id@)
                    &&& path_parent(pkgs@[j]@.manifest_path) is None
                }
            },
        },
{
    let version = id.version.to_text();
    let mut j: usize = 0;
    while j < pkgs.len()
        invariant
            j <= pkgs@.len(),
            version@ == version_text(id.version@),
            forall|i: int| 0 <= i < j ==> !is_package(#[trigger] pkgs@[i]@, id@),
        decreases pkgs@.len() - j,
    {
        let p = &pkgs[j];
        if p.name == id.name && p.version == version {
            assert(is_package(pkgs@[j as int]@, id@));
            return match package_dir(p.manifest_path.as_str()) {
                Some(d) => Ok(d),
                None => Err(FetchError::NoSourceDir { id: id.to_text() }),
            };
        }
        j = j + 1;
    }
    Err(FetchError::ResolutionInconsistency { id: id.to_text() })
}

/// A directory to copy: `src` goes to `to`, a path relative to the
/// destination directory.
#[derive(Debug)]
pub struct CopyOp {
    pub src: String,
    pub to: String,
}

/// The model of a copy: source and relative target.
pub open spec fn copy_model(c: CopyOp) -> (Seq<char>, Seq<char>) {
    (c.src@, c.to@)
}

/// The models of a sequence of copies.
pub open spec fn copy_models(cs: Seq<CopyOp>) -> Seq<(Seq<char>, Seq<char>)> {
    cs.map_values(|c: CopyOp| copy_model(c))
}

/// Where one differing bucket is copied: its old directory to
/// `before/<bucket>`, its new one to `after/<bucket>`, each where present.
pub open spec fn entry_copies(e: PackageDiff) -> Seq<(Seq<char>, Seq<char>)> {
    let b = match opt_text(e.before) {
        Some(s) => seq![(s, "before/"@ + e.name@)],
        None => Seq::empty(),
    };
    let a = match opt_text(e.after) {
        Some(s) => seq![(s, "after/"@ + e.name@)],
        None => Seq::empty(),
    };
    b + a
}

/// The copies that materialize one differing bucket.
pub fn diff_entry_copies(e: &PackageDiff) -> (r: Vec<CopyOp>)
    ensures
        copy_models(r@) == entry_copies(*e),
{
    let mut r: Vec<CopyOp> = Vec::new();
    match &e.before {
        Some(src) => {
            let to = String::from_str("before/").concat(e.name.as_str());
            r.push(CopyOp { src: src.clone(), to });
        },
        None => {},
    }
    match &e.after {
        Some(src) => {
            let to = String::from_str("after/").concat(e.name.as_str());
            r.push(CopyOp { src: src.clone(), to });
        },
        None => {},
    }
    assert(copy_models(r@) =~= entry_copies(*e));
    r
}

/// The copies that materialize a list of differing buckets, in order.
pub open spec fn all_copies(es: Seq<PackageDiff>) -> Seq<(Seq<char>, Seq<char>)>
    decreases es.len(),
{
    if es.len() == 0 {
        Seq::empty()
    } else {
        all_copies(es.drop_last()) + entry_copies(es.last())
    }
}

/// The copies that materialize every differing bucket of `diffs`.
pub fn diff_copies(diffs: &Vec<PackageDiff>) -> (r: Vec<CopyOp>)
    ensures
        copy_models(r@) == all_copies(diffs@),
{
    let mut r: Vec<CopyOp> = Vec::new();
    let mut i: usize = 0;
    while i < diffs.len()
        invariant
            i <= diffs@.len(),
            copy_models(r@) == all_copies(diffs@.take(i as int)),
        decreases diffs@.len() - i,
    {
        let mut more = diff_entry_copies(&diffs[i]);
        let ghost before = r@;
        r.append(&mut more);
        assert(diffs@.take(i as int + 1).drop_last() =~= diffs@.take(i as int));
        assert(copy_models(r@) =~= copy_models(before) + entry_copies(diffs@[i as int]));
        i = i + 1;
    }
    assert(diffs@.take(i as int) =~= diffs@);
    r
}

/// What copying the current dependencies does, in order: registry packages
/// go to `<name>:<version>`; others are skipped. The first registry package
/// whose manifest path has no directory makes it fail, naming the package.
pub open spec fn current_spec(pkgs: Seq<ResolvedModel>) -> Result<
    Seq<(Seq<char>, Seq<char>)>,
    Seq<char>,
>
    decreases pkgs.len(),
{
    if pkgs.len() == 0 {
        Ok(Seq::empty())
    } else {
        match current_spec(pkgs.drop_last()) {
            Err(n) => Err(n),
            Ok(cs) => {
                let p = pkgs.last();
                if !is_registry(p) {
                    Ok(cs)
                } else {
                    match path_parent(p.manifest_path) {
                        None => Err(p.name),
                        Some(d) => Ok(cs.push((d, p.name + seq![':'] + p.version))),
                    }
                }
            },
        }
    }
}

/// The copies for the current dependencies, and the names of the packages
/// left out because they do not come from the registry.
#[derive(Debug)]
pub struct CurrentCopies {
    pub copies: Vec<CopyOp>,
    pub skipped: Vec<String>,
}

/// Copy the sources of the current registry dependencies into `dest`.
#[derive(Debug)]
pub struct Current {
    pub dest: String,
}

impl Current {
    /// The copies into `dest` for the resolved packages `pkgs`; on failure,
    /// the name of the package without a source directory.
    pub fn copies(&self, pkgs: &Vec<ResolvedPackage>) -> (r: Result<CurrentCopies, String>)
        ensures
            match r {
                Ok(x) => {
                    &&& current_spec(models(pkgs@)) == Ok::<_, Seq<char>>(copy_models(x.copies@))
                    &&& texts(x.skipped@) == skipped_spec(models(pkgs@))
                },
                Err(n) => current_spec(models(pkgs@)) == Err::<Seq<(Seq<char>, Seq<char>)>, _>(n@),
            },
    {
        let mut cs: Vec<CopyOp> = Vec::new();
        let mut skipped: Vec<String> = Vec::new();
        let mut i: usize = 0;
        assert(models(pkgs@).take(0) =~= Seq::<ResolvedModel>::empty());
        assert(texts(skipped@) =~= Seq::empty());
        assert(copy_models(cs@) =~= Seq::empty());
        while i < pkgs.len()
            invariant
                i <= pkgs@.len(),
                current_spec(models(pkgs@).take(i as int)) == Ok::<_, Seq<char>>(copy_models(cs@)),
                texts(skipped@) == skipped_spec(models(pkgs@).take(i as int)),
            decreases pkgs@.len() - i,
        {
            let p = &pkgs[i];
            let ghost prefix = models(pkgs@).take(i as int + 1);
            assert(prefix.drop_last() =~= models(pkgs@).take(i as int));
            assert(prefix.last() == p@);
            if is_registry_package(p) {
                match package_dir(p.manifest_path.as_str()) {
                    Some(d) => {
                        let mut to = p.name.clone();
                        to.append(":");
                        to.append(p.version.as_str());
                        proof {
                            reveal_strlit(":");
                            assert(to@ =~= p.name@ + seq![':'] + p.version@);
                        }
                        let ghost before = cs@;
                        cs.push(CopyOp { src: d, to });
                        assert(copy_models(cs@) =~= copy_models(before).push((d@, p.name@ + seq![':'] + p.version@)));
                    },
                    None => {
                        proof { lemma_current_fault_persists(models(pkgs@), i as int + 1); }
                        return Err(p.name.clone());
                    },
                }
            } else {
                skipped.push(p.name.clone());
                assert(texts(skipped@) =~= skipped_spec(prefix));
            }
            i = i + 1;
        }
        assert(models(pkgs@).take(i as int) =~= models(pkgs@));
        Ok(CurrentCopies { copies: cs, skipped })
    }
}

proof fn lemma_current_fault_persists(pkgs: Seq<ResolvedModel>, n: int)
    requires
        0 <= n <= pkgs.len(),
        current_spec(pkgs.take(n)) is Err,
    ensures
        current_spec(pkgs) == current_spec(pkgs.take(n)),
    decreases pkgs.len() - n,
{
    if n < pkgs.len() {
        assert(pkgs.take(n + 1).drop_last() =~= pkgs.take(n));
        lemma_current_fault_persists(pkgs, n + 1);
    } else {
        assert(pkgs.take(n) =~= pkgs);
    }
}

/// The message for a comparison tool that could not be run: where no such
/// tool is installed, a hint to copy the sources out instead; else the
/// reason given.
pub fn comparison_failure(tool_present: bool, reason: String) -> (r: String)
    ensures
        tool_present ==> r@ == reason@,
        !tool_present ==> r@ == "looks like you don't have a suitable diff command installed.\nTry using --destination flag to run a custom diff tool or to compare sources manually."@,
{
    if tool_present {
        reason
    } else {
        String::from_str(
            "looks like you don't have a suitable diff command installed.\nTry using --destination flag to run a custom diff tool or to compare sources manually.",
        )
    }
}

/// What a comparison of two package versions does once both are fetched.
#[derive(Debug)]
pub enum DiffPlan {
    /// Copy both source trees into `dest`.
    CopyInto { dest: String, copies: Vec<CopyOp> },
    /// Hand the two source trees to the comparison tool.
    Compare { first: String, second: String },
}

/// Compare the sources of two package versions, or copy them into `dest`.
#[derive(Debug)]
pub struct Diff {
    pub first: PackageId,
    pub second: PackageId,
    pub dest: Option<String>,
}

impl Diff {
    /// Decides what to do with the fetched sources `first_src` and
    /// `second_src`: with a destination, copy each to `<dest>/<name>:<version>`
    /// and compare nothing; without one, compare the two directories.
    pub fn plan(&self, first_src: String, second_src: String) -> (r: DiffPlan)
        ensures
            match self.dest {
                Some(dest) => match r {
                    DiffPlan::CopyInto { dest: d, copies } => {
                        &&& d@ == dest@
                        &&& copy_models(copies@) == seq![
                            (first_src@, id_text(self.first@)),
                            (second_src@, id_text(self.second@)),
                        ]
                    },
                    DiffPlan::Compare { .. } => false,
                },
                None => match r {
                    DiffPlan::Compare { first, second } => first@ == first_src@ && second@
                        == second_src@,
                    DiffPlan::CopyInto { .. } => false,
                },
            },
    {
        match &self.dest {
            Some(dest) => {
                let mut copies: Vec<CopyOp> = Vec::new();
                copies.push(CopyOp { src: first_src, to: self.first.to_text() });
                copies.push(CopyOp { src: second_src, to: self.second.to_text() });
                assert(copy_models(copies@) =~= seq![
                    (copies@[0].src@, id_text(self.first@)),
                    (copies@[1].src@, id_text(self.second@)),
                ]);
                DiffPlan::CopyInto { dest: dest.clone(), copies }
            },
            None => DiffPlan::Compare { first: first_src, second: second_src },
        }
    }
}

} // verus!
