//! The name under which a built library is published.

use vstd::prelude::*;
use crate::catalog::{BuildTarget, TargetView};
use crate::text::{last_index_of, lemma_last_index_bounds};

verus! {

/// The last component of a `/`-separated path.
pub open spec fn file_name_spec(path: Seq<char>) -> Seq<char> {
    path.subrange(last_index_of(path, '/') + 1, path.len() as int)
}

/// `name` with `suffix` put before its final extension, or appended when it
/// has none: `base.ext` becomes `base<suffix>.ext`.
pub open spec fn with_suffix(name: Seq<char>, suffix: Seq<char>) -> Seq<char> {
    let k = last_index_of(name, '.');
    if k >= 0 {
        name.subrange(0, k) + suffix + name.subrange(k, name.len() as int)
    } else {
        name + suffix
    }
}

/// The published name of the library at `path` built for target `t`.
pub open spec fn published_name_spec(path: Seq<char>, t: TargetView) -> Seq<char> {
    with_suffix(file_name_spec(path), seq!['-'] + t.name)
}

/// Index of the last `c` in `s`, if any.
fn rfind(s: &str, c: char) -> (r: Option<usize>)
    ensures
        match r {
            Some(i) => i == last_index_of(s@, c),
            None => last_index_of(s@, c) == -1,
        },
{
    let n = s.unicode_len();
    let mut i: usize = n;
    assert(s@.subrange(0, n as int) == s@);
    while i > 0
        invariant
            i <= n == s@.len(),
            last_index_of(s@, c) == last_index_of(s@.subrange(0, i as int), c),
        decreases i,
    {
        let ghost pre = s@.subrange(0, i as int);
        assert(pre.drop_last() == s@.subrange(0, i - 1 as int));
        if s.get_char(i - 1) == c {
            return Some(i - 1);
        }
        i = i - 1;
    }
    assert(s@.subrange(0, 0) == Seq::<char>::empty());
    None
}

/// The last component of a `/`-separated path.
pub fn file_name(path: &str) -> (r: String)
    ensures
        r@ == file_name_spec(path@),
{
    proof {
        lemma_last_index_bounds(path@, '/');
    }
    let n = path.unicode_len();
    let start: usize = match rfind(path, '/') {
        Some(i) => i + 1,
        None => 0,
    };
    String::from_str(path.substring_char(start, n))
}

/// Puts `suffix` before the final extension of `name`, or after `name` when
/// it has no extension.
pub fn add_suffix(name: &str, suffix: &str) -> (r: String)
    ensures
        r@ == with_suffix(name@, suffix@),
{
    proof {
        lemma_last_index_bounds(name@, '.');
    }
    let n = name.unicode_len();
    match rfind(name, '.') {
        Some(k) => {
            let mut s = String::from_str(name.substring_char(0, k));
            s.append(suffix);
            s.append(name.substring_char(k, n));
            s
        },
        None => {
            let mut s = String::from_str(name);
            s.append(suffix);
            s
        },
    }
}

/// The published name of the library at `path` built for `target`: its file
/// name with `-<target name>` before the extension.
pub fn published_name(path: &str, target: &BuildTarget) -> (r: String)
    ensures
        r@ == published_name_spec(path@, target@),
{
    let base = file_name(path);
    let mut suffix = String::from_str("-");
    proof {
        reveal_strlit("-");
    }
    suffix.append(target.name);
    assert(suffix@ =~= seq!['-'] + target@.name);
    add_suffix(base.as_str(), suffix.as_str())
}

} // verus!
