//! The fixed catalog of supported targets and selection by name.

use vstd::prelude::*;
use crate::text::{split_on, trim_spec, split_text, trim, holds_text};

verus! {

/// One build target: a name (the catalog's key), the target triple handed to
/// the build tool, the file extension of the dynamic library it produces, and
/// whether it needs a macOS cross compiler.
#[derive(Clone, Copy)]
pub struct BuildTarget {
    pub name: &'static str,
    pub triple: &'static str,
    pub ext: &'static str,
    pub needs_mac: bool,
}

/// A target as plain character sequences.
pub struct TargetView {
    pub name: Seq<char>,
    pub triple: Seq<char>,
    pub ext: Seq<char>,
    pub needs_mac: bool,
}

impl View for BuildTarget {
    type V = TargetView;

    open spec fn view(&self) -> TargetView {
        TargetView { name: self.name@, triple: self.triple@, ext: self.ext@, needs_mac: self.needs_mac }
    }
}

pub open spec fn tv(name: &str, triple: &str, ext: &str, needs_mac: bool) -> TargetView {
    TargetView { name: name@, triple: triple@, ext: ext@, needs_mac }
}

/// The supported targets, in declared order.
pub open spec fn catalog() -> Seq<TargetView> {
    seq![
        tv("linux", "x86_64-unknown-linux-gnu", "so", false),
        tv("windows-gnu", "x86_64-pc-windows-gnu", "dll", false),
        tv("windows-msvc", "x86_64-pc-windows-msvc", "dll", false),
        tv("mac-intel", "x86_64-apple-darwin", "dylib", true),
        tv("mac-arm64", "aarch64-apple-darwin", "dylib", true),
    ]
}

/// The names that a filter string asks for: its comma-separated pieces, trim_spec.
pub open spec fn requested_names(filter: Seq<char>) -> Seq<Seq<char>> {
    split_on(filter, ',').map_values(|p: Seq<char>| trim_spec(p))
}

/// The targets of `ts` whose name is among `names`, in the order of `ts`.
pub open spec fn keep_named(ts: Seq<TargetView>, names: Set<Seq<char>>) -> Seq<TargetView>
    decreases ts.len(),
{
    if ts.len() == 0 {
        Seq::empty()
    } else {
        let rest = keep_named(ts.drop_last(), names);
        if names.contains(ts.last().name) {
            rest.push(ts.last())
        } else {
            rest
        }
    }
}

/// What a selection with an optional filter yields.
pub open spec fn selection(filter: Option<Seq<char>>) -> Seq<TargetView> {
    match filter {
        None => catalog(),
        Some(f) => keep_named(catalog(), requested_names(f).to_set()),
    }
}

proof fn lemma_keep_named_members(ts: Seq<TargetView>, names: Set<Seq<char>>)
    ensures
        forall|x: TargetView|
            keep_named(ts, names).contains(x) <==> (ts.contains(x) && names.contains(x.name)),
    decreases ts.len(),
{
    if ts.len() > 0 {
        let init = ts.drop_last();
        lemma_keep_named_members(init, names);
        assert forall|x: TargetView|
            keep_named(ts, names).contains(x) <==> (ts.contains(x) && names.contains(
                x.name,
            )) by {
            assert(ts == init.push(ts.last()));
            if ts.contains(x) && x != ts.last() {
                let k = choose|k: int| 0 <= k < ts.len() && ts[k] == x;
                assert(init[k] == x);
            }
            if keep_named(init, names).contains(x) {
                let k = choose|k: int| 0 <= k < keep_named(init, names).len() && keep_named(init, names)[k] == x;
                if names.contains(ts.last().name) {
                    assert(keep_named(ts, names)[k] == x);
                }
            }
            if init.contains(x) {
                let k = choose|k: int| 0 <= k < init.len() && init[k] == x;
                assert(ts[k] == x);
            }
            if names.contains(ts.last().name) {
                assert(keep_named(ts, names).last() == ts.last());
                let rest = keep_named(init, names);
                if keep_named(ts, names).contains(x) && x != ts.last() {
                    let k = choose|k: int| 0 <= k < rest.len() + 1 && keep_named(ts, names)[k] == x;
                    assert(rest[k] == x);
                }
            }
        }
    }
}

/// A selection depends only on the set of names asked for: the order and the
/// repetition of names in the filter change nothing.
pub proof fn lemma_selection_ignores_order(f1: Seq<char>, f2: Seq<char>)
    requires
        requested_names(f1).to_set() == requested_names(f2).to_set(),
    ensures
        selection(Some(f1)) == selection(Some(f2)),
{
}

/// Without a filter the whole catalog is selected; with one, exactly the
/// catalog targets whose names are asked for, each once and in catalog order,
/// and names outside the catalog select nothing.
pub proof fn lemma_selection_members(filter: Option<Seq<char>>)
    ensures
        filter is None ==> selection(filter) == catalog(),
        filter is Some ==> selection(filter) == keep_named(
            catalog(),
            requested_names(filter->0).to_set(),
        ),
        filter is Some ==> forall|x: TargetView|
            #[trigger] selection(filter).contains(x) <==> (catalog().contains(x)
                && requested_names(filter->0).contains(x.name)),
{
    if let Some(f) = filter {
        lemma_keep_named_members(catalog(), requested_names(f).to_set());
    }
}

/// All supported targets, in declared order.
pub fn all_targets() -> (r: Vec<BuildTarget>)
    ensures
        r@.map_values(|t: BuildTarget| t@) == catalog(),
{
    let r = vec![
        BuildTarget { name: "linux", triple: "x86_64-unknown-linux-gnu", ext: "so", needs_mac: false },
        BuildTarget {
            name: "windows-gnu",
            triple: "x86_64-pc-windows-gnu",
            ext: "dll",
            needs_mac: false,
        },
        BuildTarget {
            name: "windows-msvc",
            triple: "x86_64-pc-windows-msvc",
            ext: "dll",
            needs_mac: false,
        },
        BuildTarget {
            name: "mac-intel",
            triple: "x86_64-apple-darwin",
            ext: "dylib",
            needs_mac: true,
        },
        BuildTarget {
            name: "mac-arm64",
            triple: "aarch64-apple-darwin",
            ext: "dylib",
            needs_mac: true,
        },
    ];
    assert(r@.map_values(|t: BuildTarget| t@) =~= catalog());
    r
}

/// The trim_spec comma-separated names of a filter string.
fn parse_names(filter: &str) -> (r: Vec<String>)
    ensures
        r@.map_values(|p: String| p@) == requested_names(filter@),
{
    let pieces = split_text(filter, ',');
    let mut names: Vec<String> = Vec::new();
    let mut i: usize = 0;
    while i < pieces.len()
        invariant
            i <= pieces@.len(),
            names@.len() == i,
            pieces@.map_values(|p: String| p@) == split_on(filter@, ','),
            names@.map_values(|p: String| p@) =~= pieces@.subrange(0, i as int).map_values(
                |p: String| trim_spec(p@),
            ),
        decreases pieces@.len() - i,
    {
        let t = trim(pieces[i].as_str());
        let ghost before = names@;
        names.push(String::from_str(t));
        assert forall|j: int| 0 <= j < i implies names@[j]@ == trim_spec(pieces@[j]@) by {
            assert(names@[j] == before[j]);
            assert(before.map_values(|p: String| p@)[j] == pieces@.subrange(0, i as int).map_values(
                |p: String| trim_spec(p@),
            )[j]);
        }
        assert(names@[i as int]@ == trim_spec(pieces@[i as int]@));
        i = i + 1;
        assert(names@.map_values(|p: String| p@) =~= pieces@.subrange(0, i as int).map_values(
            |p: String| trim_spec(p@),
        ));
    }
    assert(names@.map_values(|p: String| p@) =~= requested_names(filter@));
    names
}

/// The targets that `filter` names, in catalog order; without a filter, all
/// of them. Names outside the catalog are ignored.
pub fn select_targets(filter: Option<String>) -> (r: Vec<BuildTarget>)
    ensures
        r@.map_values(|t: BuildTarget| t@) == selection(
            match filter {
                Some(f) => Some(f@),
                None => None,
            },
        ),
{
    match filter {
        None => all_targets(),
        Some(f) => {
            let names = parse_names(f.as_str());
            select_named(&names)
        },
    }
}

/// The catalog targets whose names are among `names`, in catalog order.
pub fn select_named(names: &Vec<String>) -> (r: Vec<BuildTarget>)
    ensures
        r@.map_values(|t: BuildTarget| t@) == keep_named(
            catalog(),
            names@.map_values(|p: String| p@).to_set(),
        ),
{
    let all = all_targets();
    let ghost set = names@.map_values(|p: String| p@).to_set();
    let mut out: Vec<BuildTarget> = Vec::new();
    let mut i: usize = 0;
    while i < all.len()
        invariant
            i <= all@.len(),
            all@.map_values(|t: BuildTarget| t@) == catalog(),
            set == names@.map_values(|p: String| p@).to_set(),
            out@.map_values(|t: BuildTarget| t@) == keep_named(catalog().subrange(0, i as int), set),
        decreases all@.len() - i,
    {
        let t = all[i];
        let ghost prefix = catalog().subrange(0, i as int);
        assert(catalog().subrange(0, i + 1 as int).drop_last() == prefix);
        assert(catalog().subrange(0, i + 1 as int).last() == t@);
        if holds_text(names, t.name) {
            out.push(t);
            assert(out@.map_values(|t: BuildTarget| t@) =~= keep_named(prefix, set).push(t@));
        }
        i = i + 1;
    }
    assert(catalog().subrange(0, 5) == catalog());
    out
}

} // verus!
