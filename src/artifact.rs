//! Picking the one built library among the candidates a build reported.

use vstd::prelude::*;
use crate::catalog::{BuildTarget, TargetView};
use crate::text::dotted;
use crate::text::{is_infix, is_suffix, contains_text, ends_with_text};
use crate::toolchain::SkipReason;

verus! {

/// Why a target produced no published file.
pub enum TargetError {
    /// The target was deliberately not attempted.
    Skipped(SkipReason),
    /// The build tool could not be started.
    SpawnFailed(String),
    /// The build tool ran and exited unsuccessfully.
    BuildFailed,
    /// The build succeeded but reported no library with the target's
    /// extension; `expected_dir` is where it would normally be.
    ArtifactNotFound { expected_dir: String },
    /// Creating the output directory or copying the library failed.
    PublishFailed(String),
}

/// The build-output directory segment of a triple: `/target/<triple>/`.
pub open spec fn triple_dir(triple: Seq<char>) -> Seq<char> {
    "/target/"@ + triple + "/"@
}

/// A candidate with the right extension.
pub open spec fn has_ext(f: Seq<char>, ext: Seq<char>) -> bool {
    is_suffix(dotted(ext), f)
}

/// A candidate fit for the first tier (`exact`: inside the triple's own
/// output directory, with the right extension) or the second (with the right
/// extension).
pub open spec fn fits_tier(f: Seq<char>, t: TargetView, exact: bool) -> bool {
    has_ext(f, t.ext) && (exact ==> is_infix(triple_dir(t.triple), f))
}

/// Index of the first element of `s` fit for the tier, or -1.
pub open spec fn first_fit(s: Seq<Seq<char>>, t: TargetView, exact: bool) -> int
    decreases s.len(),
{
    if s.len() == 0 {
        -1
    } else if fits_tier(s[0], t, exact) {
        0
    } else {
        let k = first_fit(s.drop_first(), t, exact);
        if k < 0 {
            -1
        } else {
            k + 1
        }
    }
}

/// The candidate chosen for target `t`: the first inside the triple's output
/// directory, else the first with the right extension, else none.
pub open spec fn best_candidate(files: Seq<Seq<char>>, t: TargetView) -> Option<Seq<char>> {
    let exact = first_fit(files, t, true);
    let loose = first_fit(files, t, false);
    if exact >= 0 {
        Some(files[exact])
    } else if loose >= 0 {
        Some(files[loose])
    } else {
        None
    }
}

/// Where the library of triple `triple` normally lands under `project`.
pub open spec fn expected_dir_spec(project: Seq<char>, triple: Seq<char>) -> Seq<char> {
    let sep = if project.len() > 0 && project.last() == '/' {
        Seq::empty()
    } else {
        "/"@
    };
    project + sep + "target/"@ + triple + "/release"@
}

/// The outcome of a finished build: its exit status and the candidates it reported.
pub open spec fn resolution(
    exit_ok: bool,
    files: Seq<Seq<char>>,
    t: TargetView,
    project: Seq<char>,
) -> Result<Seq<char>, Option<Seq<char>>> {
    if !exit_ok {
        Err(None)
    } else {
        match best_candidate(files, t) {
            Some(f) => Ok(f),
            None => Err(Some(expected_dir_spec(project, t.triple))),
        }
    }
}

pub proof fn lemma_first_fit(s: Seq<Seq<char>>, t: TargetView, exact: bool)
    ensures
        -1 <= first_fit(s, t, exact) < s.len(),
        first_fit(s, t, exact) >= 0 ==> fits_tier(s[first_fit(s, t, exact)], t, exact),
        forall|j: int|
            0 <= j < s.len() && (j < first_fit(s, t, exact) || first_fit(s, t, exact) < 0)
                ==> !fits_tier(#[trigger] s[j], t, exact),
    decreases s.len(),
{
    if s.len() > 0 && !fits_tier(s[0], t, exact) {
        let rest = s.drop_first();
        lemma_first_fit(rest, t, exact);
        assert forall|j: int|
            0 <= j < s.len() && (j < first_fit(s, t, exact) || first_fit(s, t, exact) < 0)
                implies !fits_tier(#[trigger] s[j], t, exact) by {
            if j > 0 {
                assert(s[j] == rest[j - 1]);
            }
        }
        if first_fit(s, t, exact) >= 0 {
            assert(s[first_fit(s, t, exact)] == rest[first_fit(rest, t, exact)]);
        }
    }
}

/// The index of the first of `files` fit for the tier.
fn find_first(
    files: &Vec<String>,
    target: &BuildTarget,
    exact: bool,
    dir: &String,
    dot: &String,
) -> (r: Option<usize>)
    requires
        dir@ == triple_dir(target@.triple),
        dot@ == dotted(target@.ext),
    ensures
        match r {
            Some(i) => i == first_fit(files@.map_values(|f: String| f@), target@, exact) && i
                < files@.len(),
            None => first_fit(files@.map_values(|f: String| f@), target@, exact) < 0,
        },
{
    let ghost fs = files@.map_values(|f: String| f@);
    proof {
        lemma_first_fit(fs, target@, exact);
    }
    let mut i: usize = 0;
    while i < files.len()
        invariant
            i <= files@.len(),
            fs == files@.map_values(|f: String| f@),
            dir@ == triple_dir(target@.triple),
            dot@ == dotted(target@.ext),
            forall|j: int| 0 <= j < i ==> !fits_tier(#[trigger] fs[j], target@, exact),
            -1 <= first_fit(fs, target@, exact) < fs.len(),
            first_fit(fs, target@, exact) >= 0 ==> fits_tier(
                fs[first_fit(fs, target@, exact)],
                target@,
                exact,
            ),
            forall|j: int|
                0 <= j < fs.len() && (j < first_fit(fs, target@, exact) || first_fit(
                    fs,
                    target@,
                    exact,
                ) < 0) ==> !fits_tier(#[trigger] fs[j], target@, exact),
        decreases files@.len() - i,
    {
        let f = files[i].as_str();
        assert(fs[i as int] == f@);
        let hit = ends_with_text(f, dot.as_str()) && (!exact || contains_text(f, dir.as_str()));
        if hit {
            assert(fits_tier(fs[i as int], target@, exact));
            return Some(i);
        }
        i = i + 1;
    }
    None
}

/// The candidate to publish for `target`: the first inside
/// `/target/<triple>/` with the target's extension, else the first with that
/// extension, else none.
pub fn choose_best(files: &Vec<String>, target: &BuildTarget) -> (r: Option<String>)
    ensures
        match r {
            Some(f) => best_candidate(files@.map_values(|f: String| f@), target@) == Some(f@),
            None => best_candidate(files@.map_values(|f: String| f@), target@) is None,
        },
{
    let ghost fs = files@.map_values(|f: String| f@);
    let mut dir = String::from_str("/target/");
    dir.append(target.triple);
    dir.append("/");
    let mut dot = String::from_str(".");
    dot.append(target.ext);
    proof {
        reveal_strlit(".");
    }
    assert(dot@ =~= dotted(target@.ext));
    match find_first(files, target, true, &dir, &dot) {
        Some(i) => {
            assert(fs[i as int] == files@[i as int]@);
            Some(String::from_str(files[i].as_str()))
        },
        None => match find_first(files, target, false, &dir, &dot) {
            Some(i) => {
                assert(fs[i as int] == files@[i as int]@);
                Some(String::from_str(files[i].as_str()))
            },
            None => None,
        },
    }
}

/// Where the library of `target` normally lands under `project`.
pub fn expected_dir(project: &str, target: &BuildTarget) -> (r: String)
    ensures
        r@ == expected_dir_spec(project@, target@.triple),
{
    let mut s = String::from_str(project);
    let n = project.unicode_len();
    if !(n > 0 && project.get_char(n - 1) == '/') {
        s.append("/");
    }
    s.append("target/");
    s.append(target.triple);
    s.append("/release");
    assert(s@ =~= expected_dir_spec(project@, target@.triple));
    s
}

/// Decides a finished build: a failed exit is `BuildFailed`; a successful one
/// yields the chosen candidate, or `ArtifactNotFound` with the directory where
/// the library was expected when no candidate has the target's extension.
pub fn resolve_artifact(
    exit_ok: bool,
    files: &Vec<String>,
    target: &BuildTarget,
    project: &str,
) -> (r: Result<String, TargetError>)
    ensures
        match (r, resolution(exit_ok, files@.map_values(|f: String| f@), target@, project@)) {
            (Ok(f), Ok(g)) => f@ == g,
            (Err(TargetError::BuildFailed), Err(None)) => true,
            (Err(TargetError::ArtifactNotFound { expected_dir }), Err(Some(d))) => expected_dir@ == d,
            _ => false,
        },
{
    if !exit_ok {
        return Err(TargetError::BuildFailed);
    }
    match choose_best(files, target) {
        Some(f) => Ok(f),
        None => Err(TargetError::ArtifactNotFound { expected_dir: expected_dir(project, target) }),
    }
}

} // verus!

verus! {

/// When some candidate lies in the target's own output directory with the
/// target's extension, the chosen candidate is such a one, and the first:
/// candidates outside that directory are passed over even when they come
/// earlier.
pub proof fn lemma_prefers_triple_dir(files: Seq<Seq<char>>, t: TargetView, i: int)
    requires
        0 <= i < files.len(),
        fits_tier(files[i], t, true),
    ensures
        exists|k: int|
            0 <= k <= i && best_candidate(files, t) == Some(files[k]) && fits_tier(
                files[k],
                t,
                true,
            ) && forall|j: int| 0 <= j < k ==> !fits_tier(#[trigger] files[j], t, true),
{
    lemma_first_fit(files, t, true);
    let k = first_fit(files, t, true);
    assert(0 <= k <= i);
    assert(forall|j: int| 0 <= j < k ==> !fits_tier(#[trigger] files[j], t, true));
}

/// A successful build whose candidates all lack the target's extension ends
/// in `ArtifactNotFound`, naming the expected directory; and whenever the
/// outcome is a success, its file is one of the candidates and has the
/// target's extension.
pub proof fn lemma_resolution_sound(
    exit_ok: bool,
    files: Seq<Seq<char>>,
    t: TargetView,
    project: Seq<char>,
)
    ensures
        exit_ok && (forall|j: int| 0 <= j < files.len() ==> !has_ext(#[trigger] files[j], t.ext))
            ==> resolution(exit_ok, files, t, project) == Err::<Seq<char>, Option<Seq<char>>>(
            Some(expected_dir_spec(project, t.triple)),
        ),
        !exit_ok ==> resolution(exit_ok, files, t, project) == Err::<
            Seq<char>,
            Option<Seq<char>>,
        >(None),
        resolution(exit_ok, files, t, project) is Ok ==> files.contains(
            resolution(exit_ok, files, t, project)->Ok_0,
        ) && has_ext(resolution(exit_ok, files, t, project)->Ok_0, t.ext),
{
    lemma_first_fit(files, t, true);
    lemma_first_fit(files, t, false);
    if exit_ok && (forall|j: int| 0 <= j < files.len() ==> !has_ext(#[trigger] files[j], t.ext)) {
        if first_fit(files, t, true) >= 0 {
            assert(!has_ext(files[first_fit(files, t, true)], t.ext));
        }
        if first_fit(files, t, false) >= 0 {
            assert(!has_ext(files[first_fit(files, t, false)], t.ext));
        }
    }
}

} // verus!
