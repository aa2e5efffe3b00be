//! Checks on the project being built, read from the build tool's JSON
//! descriptions of it (`cargo metadata`, `cargo read-manifest`).

use vstd::prelude::*;
use crate::json::{Json, as_text, items_of, json_of, member, member_of, parse_json, text_items, text_items_of, text_of};
use crate::text::{holds_text, text_eq};

verus! {

/// Why the project cannot be built.
#[derive(Clone, Copy, Debug, PartialEq, Eq, Structural)]
pub enum ProjectError {
    /// The description is not JSON.
    NotJson,
    /// The metadata lists no packages.
    NoPackages,
    /// The package list is empty.
    NoPackage,
    /// The chosen package has no name.
    NoName,
    /// The manifest lists no targets.
    NoTargets,
    /// No target of the manifest builds a dynamic library.
    NotCdylib,
}

/// One package of the metadata: its manifest path and its name, when given as text.
pub struct PackageInfo {
    pub manifest_path: Option<String>,
    pub name: Option<String>,
}

/// A package as plain values.
pub struct PackageView {
    pub manifest_path: Option<Seq<char>>,
    pub name: Option<Seq<char>>,
}

pub open spec fn opt_view(s: Option<String>) -> Option<Seq<char>> {
    match s {
        Some(x) => Some(x@),
        None => None,
    }
}

impl View for PackageInfo {
    type V = PackageView;

    open spec fn view(&self) -> PackageView {
        PackageView { manifest_path: opt_view(self.manifest_path), name: opt_view(self.name) }
    }
}

/// The package that a metadata entry describes.
pub open spec fn package_of(item: Json) -> PackageView {
    PackageView {
        manifest_path: text_of(member_of(Some(item), "manifest_path"@)),
        name: text_of(member_of(Some(item), "name"@)),
    }
}

/// What the package name read from metadata document `doc` is.
pub open spec fn metadata_verdict(doc: Option<Json>, manifest: Seq<char>) -> Result<
    Seq<char>,
    ProjectError,
> {
    match doc {
        None => Err(ProjectError::NotJson),
        Some(v) => match items_of(member_of(Some(v), "packages"@)) {
            None => Err(ProjectError::NoPackages),
            Some(items) => package_name(items.map_values(|i: Json| package_of(i)), manifest),
        },
    }
}

/// The kinds of each target that a manifest entry lists.
pub open spec fn target_kinds(items: Seq<Json>) -> Seq<Seq<Seq<char>>> {
    items.map_values(|t: Json| text_items_of(member_of(Some(t), "kind"@)))
}

/// What the check of manifest document `doc` gives.
pub open spec fn manifest_verdict(doc: Option<Json>) -> Result<(), ProjectError> {
    match doc {
        None => Err(ProjectError::NotJson),
        Some(v) => match items_of(member_of(Some(v), "targets"@)) {
            None => Err(ProjectError::NoTargets),
            Some(items) => if any_cdylib(target_kinds(items)) {
                Ok(())
            } else {
                Err(ProjectError::NotCdylib)
            },
        },
    }
}

/// Index of the first package whose manifest path is `manifest`, or -1.
pub open spec fn package_at(ps: Seq<PackageView>, manifest: Seq<char>) -> int
    decreases ps.len(),
{
    if ps.len() == 0 {
        -1
    } else {
        let k = package_at(ps.drop_last(), manifest);
        if k >= 0 {
            k
        } else if ps.last().manifest_path is Some && ps.last().manifest_path->0 == manifest {
            ps.len() - 1
        } else {
            -1
        }
    }
}

/// The package name picked from `ps`: that of the package at `manifest`,
/// else that of the first package.
pub open spec fn package_name(ps: Seq<PackageView>, manifest: Seq<char>) -> Result<
    Seq<char>,
    ProjectError,
> {
    let k = package_at(ps, manifest);
    let i = if k >= 0 {
        k
    } else {
        0
    };
    if ps.len() == 0 {
        Err(ProjectError::NoPackage)
    } else if ps[i].name is Some {
        Ok(ps[i].name->0)
    } else {
        Err(ProjectError::NoName)
    }
}

/// Some target's kinds include `cdylib`.
pub open spec fn any_cdylib(kinds: Seq<Seq<Seq<char>>>) -> bool {
    exists|i: int| 0 <= i < kinds.len() && #[trigger] kinds[i].contains("cdylib"@)
}

pub proof fn lemma_package_at(ps: Seq<PackageView>, manifest: Seq<char>)
    ensures
        -1 <= package_at(ps, manifest) < ps.len(),
    decreases ps.len(),
{
    if ps.len() > 0 {
        lemma_package_at(ps.drop_last(), manifest);
    }
}

/// The index of the first package whose manifest path is `manifest`.
fn find_package(packages: &Vec<PackageInfo>, manifest: &str) -> (r: Option<usize>)
    ensures
        match r {
            Some(k) => k == package_at(packages@.map_values(|p: PackageInfo| p@), manifest@),
            None => package_at(packages@.map_values(|p: PackageInfo| p@), manifest@) == -1,
        },
{
    let ghost pv = packages@.map_values(|p: PackageInfo| p@);
    let mut i: usize = 0;
    while i < packages.len()
        invariant
            i <= packages@.len(),
            pv == packages@.map_values(|p: PackageInfo| p@),
            package_at(pv.subrange(0, i as int), manifest@) == -1,
        decreases packages@.len() - i,
    {
        let ghost pre = pv.subrange(0, i as int);
        assert(pv.subrange(0, i + 1 as int).drop_last() == pre);
        assert(pv.subrange(0, i + 1 as int).last() == packages@[i as int]@);
        let hit = match &packages[i].manifest_path {
            Some(m) => text_eq(m.as_str(), manifest),
            None => false,
        };
        if hit {
            proof {
                lemma_package_at_prefix(pv, manifest@, i as int);
            }
            return Some(i);
        }
        i = i + 1;
    }
    assert(pv.subrange(0, i as int) == pv);
    None
}

/// Picks the package name: that of the package whose manifest path is
/// `manifest`, else that of the first package.
pub fn pick_package(packages: &Vec<PackageInfo>, manifest: &str) -> (r: Result<String, ProjectError>)
    ensures
        match (r, package_name(packages@.map_values(|p: PackageInfo| p@), manifest@)) {
            (Ok(n), Ok(m)) => n@ == m,
            (Err(e), Err(f)) => e == f,
            _ => false,
        },
{
    if packages.len() == 0 {
        return Err(ProjectError::NoPackage);
    }
    proof {
        lemma_package_at(packages@.map_values(|p: PackageInfo| p@), manifest@);
    }
    let chosen: usize = match find_package(packages, manifest) {
        Some(k) => k,
        None => 0,
    };
    match &packages[chosen].name {
        Some(n) => Ok(String::from_str(n.as_str())),
        None => Err(ProjectError::NoName),
    }
}

proof fn lemma_package_at_prefix(ps: Seq<PackageView>, manifest: Seq<char>, i: int)
    requires
        0 <= i < ps.len(),
        package_at(ps.subrange(0, i), manifest) == -1,
        ps[i].manifest_path is Some && ps[i].manifest_path->0 == manifest,
    ensures
        package_at(ps, manifest) == i,
    decreases ps.len(),
{
    if i < ps.len() - 1 {
        let init = ps.drop_last();
        assert(init.subrange(0, i) == ps.subrange(0, i));
        lemma_package_at_prefix(init, manifest, i);
    } else {
        assert(ps.drop_last() == ps.subrange(0, i));
    }
}

/// Whether some target's kinds include `cdylib`.
pub fn has_cdylib(kinds: &Vec<Vec<String>>) -> (r: bool)
    ensures
        r == any_cdylib(kinds@.map_values(|ks: Vec<String>| ks@.map_values(|k: String| k@))),
{
    let ghost all = kinds@.map_values(|ks: Vec<String>| ks@.map_values(|k: String| k@));
    let mut i: usize = 0;
    while i < kinds.len()
        invariant
            i <= kinds@.len(),
            all == kinds@.map_values(|ks: Vec<String>| ks@.map_values(|k: String| k@)),
            forall|j: int| 0 <= j < i ==> !(#[trigger] all[j]).contains("cdylib"@),
        decreases kinds@.len() - i,
    {
        if holds_text(&kinds[i], "cdylib") {
            assert(all[i as int] == kinds@[i as int]@.map_values(|k: String| k@));
            return true;
        }
        i = i + 1;
    }
    false
}

/// The name of the package whose manifest is at `manifest_path`, read from
/// the output of `cargo metadata`; the first package when none matches.
pub fn get_crate_name(metadata: &str, manifest_path: &str) -> (r: Result<String, ProjectError>)
    ensures
        match (r, metadata_verdict(json_of(metadata@), manifest_path@)) {
            (Ok(n), Ok(m)) => n@ == m,
            (Err(e), Err(f)) => e == f,
            _ => false,
        },
{
    let v = match parse_json(metadata) {
        Some(v) => v,
        None => return Err(ProjectError::NotJson),
    };
    let items = match member(&v, "packages") {
        Some(Json::Array(items)) => items,
        _ => return Err(ProjectError::NoPackages),
    };
    let ghost views = items@.map_values(|i: Json| package_of(i));
    let mut packages: Vec<PackageInfo> = Vec::new();
    let mut i: usize = 0;
    while i < items.len()
        invariant
            i <= items@.len(),
            views == items@.map_values(|i: Json| package_of(i)),
            packages@.map_values(|p: PackageInfo| p@) =~= views.subrange(0, i as int),
        decreases items@.len() - i,
    {
        let p = PackageInfo {
            manifest_path: as_text(member(&items[i], "manifest_path")),
            name: as_text(member(&items[i], "name")),
        };
        assert(p@ == package_of(items@[i as int]));
        assert(views.subrange(0, i + 1 as int) == views.subrange(0, i as int).push(views[i as int]));
        packages.push(p);
        i = i + 1;
    }
    assert(views.subrange(0, items@.len() as int) == views);
    pick_package(&packages, manifest_path)
}

/// Checks, on the output of `cargo read-manifest`, that the project builds
/// a dynamic library.
pub fn ensure_cdylib(manifest: &str) -> (r: Result<(), ProjectError>)
    ensures
        r == manifest_verdict(json_of(manifest@)),
{
    let v = match parse_json(manifest) {
        Some(v) => v,
        None => return Err(ProjectError::NotJson),
    };
    let targets = match member(&v, "targets") {
        Some(Json::Array(items)) => items,
        _ => return Err(ProjectError::NoTargets),
    };
    let mut kinds: Vec<Vec<String>> = Vec::new();
    let mut i: usize = 0;
    while i < targets.len()
        invariant
            i <= targets@.len(),
            kinds@.map_values(|ks: Vec<String>| ks@.map_values(|k: String| k@)) =~= target_kinds(
                targets@,
            ).subrange(0, i as int),
        decreases targets@.len() - i,
    {
        let ks = text_items(member(&targets[i], "kind"));
        let ghost tk = target_kinds(targets@);
        assert(ks@.map_values(|k: String| k@) == tk[i as int]);
        assert(tk.subrange(0, i + 1 as int) == tk.subrange(0, i as int).push(tk[i as int]));
        kinds.push(ks);
        i = i + 1;
    }
    assert(target_kinds(targets@).subrange(0, targets@.len() as int) == target_kinds(targets@));
    if has_cdylib(&kinds) {
        Ok(())
    } else {
        Err(ProjectError::NotCdylib)
    }
}

/// Whether a manifest passes depends only on whether some target lists the
/// `cdylib` kind: reordering the targets or their kinds, or adding and
/// removing targets of other kinds, changes nothing.
pub proof fn lemma_manifest_only_cdylib_matters(d1: Json, d2: Json)
    requires
        items_of(member_of(Some(d1), "targets"@)) is Some,
        items_of(member_of(Some(d2), "targets"@)) is Some,
        any_cdylib(target_kinds(items_of(member_of(Some(d1), "targets"@))->0)) == any_cdylib(
            target_kinds(items_of(member_of(Some(d2), "targets"@))->0),
        ),
    ensures
        manifest_verdict(Some(d1)) == manifest_verdict(Some(d2)),
        manifest_verdict(Some(d1)) is Ok <==> any_cdylib(
            target_kinds(items_of(member_of(Some(d1), "targets"@))->0),
        ),
{
}

} // verus!
