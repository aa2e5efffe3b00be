//! Build events read from the build tool's JSON progress lines, and the
//! candidate artifacts they report.

use vstd::prelude::*;
use crate::json::{Json, as_text, json_of, member, member_of, parse_json, text_items, text_items_of, text_of};
use crate::text::{dotted, is_suffix, ends_with_text, holds_text, text_eq};

verus! {

/// One progress record of the build tool: its `reason`, the kinds of the
/// compiled target (`target.kind`) and the files it produced (`filenames`).
pub struct BuildEvent {
    pub reason: Option<String>,
    pub kinds: Vec<String>,
    pub filenames: Vec<String>,
}

/// The event announces a freshly built dynamic library.
pub open spec fn is_dylib_artifact(e: &BuildEvent) -> bool {
    &&& e.reason is Some
    &&& e.reason->0@ == "compiler-artifact"@
    &&& e.kinds@.map_values(|k: String| k@).contains("cdylib"@)
}

/// The names among `files` that end in `.ext`, in order.
pub open spec fn with_ext(files: Seq<Seq<char>>, ext: Seq<char>) -> Seq<Seq<char>>
    decreases files.len(),
{
    if files.len() == 0 {
        Seq::empty()
    } else {
        let rest = with_ext(files.drop_last(), ext);
        if is_suffix(dotted(ext), files.last()) {
            rest.push(files.last())
        } else {
            rest
        }
    }
}

/// The candidate artifacts that event `e` reports for extension `ext`.
pub open spec fn candidates_of(e: &BuildEvent, ext: Seq<char>) -> Seq<Seq<char>> {
    if is_dylib_artifact(e) {
        with_ext(e.filenames@.map_values(|f: String| f@), ext)
    } else {
        Seq::empty()
    }
}

/// The reason of event document `v`.
pub open spec fn reason_of(v: Json) -> Option<Seq<char>> {
    text_of(member_of(Some(v), "reason"@))
}

/// The kinds of the compiled target in event document `v`.
pub open spec fn kinds_of(v: Json) -> Seq<Seq<char>> {
    text_items_of(member_of(member_of(Some(v), "target"@), "kind"@))
}

/// The files of event document `v`.
pub open spec fn filenames_of(v: Json) -> Seq<Seq<char>> {
    text_items_of(member_of(Some(v), "filenames"@))
}

/// `e` holds what document `v` says: its reason, its target's kinds, its
/// files (non-string entries left out).
pub open spec fn event_read(e: &BuildEvent, v: Json) -> bool {
    &&& match e.reason {
        Some(r) => reason_of(v) == Some(r@),
        None => reason_of(v) is None,
    }
    &&& e.kinds@.map_values(|k: String| k@) == kinds_of(v)
    &&& e.filenames@.map_values(|f: String| f@) == filenames_of(v)
}

/// Reads one progress line: the event it holds, or `None` when the line is
/// not one JSON document (blank lines included).
pub fn decode_event(line: &str) -> (r: Option<BuildEvent>)
    ensures
        r is Some == json_of(line@) is Some,
        r is Some ==> event_read(&r->0, json_of(line@)->0),
{
    let v = match parse_json(line) {
        Some(v) => v,
        None => return None,
    };
    let reason = as_text(member(&v, "reason"));
    let kinds = match member(&v, "target") {
        Some(t) => text_items(member(t, "kind")),
        None => text_items(None),
    };
    let filenames = text_items(member(&v, "filenames"));
    Some(BuildEvent { reason, kinds, filenames })
}

/// Whether `e` announces a freshly built dynamic library.
pub fn is_dylib_event(e: &BuildEvent) -> (r: bool)
    ensures
        r == is_dylib_artifact(e),
{
    match &e.reason {
        Some(reason) => text_eq(reason.as_str(), "compiler-artifact") && holds_text(
            &e.kinds,
            "cdylib",
        ),
        None => false,
    }
}

/// `.ext` as a string.
pub fn dotted_ext(ext: &str) -> (r: String)
    ensures
        r@ == dotted(ext@),
{
    let mut s = String::from_str(".");
    proof {
        reveal_strlit(".");
    }
    s.append(ext);
    assert(s@ =~= dotted(ext@));
    s
}

/// The files of `e` ending in `.ext`, in order, when `e` announces a dynamic
/// library; none otherwise.
pub fn event_candidates(e: &BuildEvent, ext: &str) -> (r: Vec<String>)
    ensures
        r@.map_values(|f: String| f@) == candidates_of(e, ext@),
{
    let mut out: Vec<String> = Vec::new();
    if !is_dylib_event(e) {
        assert(out@.map_values(|f: String| f@) =~= Seq::<Seq<char>>::empty());
        return out;
    }
    let suffix = dotted_ext(ext);
    let ghost files = e.filenames@.map_values(|f: String| f@);
    let mut i: usize = 0;
    while i < e.filenames.len()
        invariant
            i <= e.filenames@.len(),
            files == e.filenames@.map_values(|f: String| f@),
            suffix@ == dotted(ext@),
            out@.map_values(|f: String| f@) == with_ext(files.subrange(0, i as int), ext@),
        decreases e.filenames@.len() - i,
    {
        let ghost prefix = files.subrange(0, i as int);
        assert(files.subrange(0, i + 1 as int).drop_last() == prefix);
        assert(files.subrange(0, i + 1 as int).last() == e.filenames@[i as int]@);
        if ends_with_text(e.filenames[i].as_str(), suffix.as_str()) {
            out.push(String::from_str(e.filenames[i].as_str()));
            assert(out@.map_values(|f: String| f@) =~= with_ext(prefix, ext@).push(
                e.filenames@[i as int]@,
            ));
        }
        i = i + 1;
    }
    assert(files.subrange(0, i as int) == files);
    out
}

/// Adds to `found` the candidates that one progress line reports, and
/// returns the event read from it. Lines that are not JSON (blank ones
/// included) add nothing.
pub fn collect_line(found: &mut Vec<String>, line: &str, ext: &str) -> (r: Option<BuildEvent>)
    ensures
        r is Some == json_of(line@) is Some,
        match r {
            Some(e) => event_read(&e, json_of(line@)->0) && final(found)@.map_values(
                |f: String| f@,
            ) == old(found)@.map_values(|f: String| f@) + candidates_of(&e, ext@),
            None => final(found)@ == old(found)@,
        },
{
    match decode_event(line) {
        None => None,
        Some(e) => {
            let ghost before = found@;
            let mut more = event_candidates(&e, ext);
            let ghost added = more@;
            found.append(&mut more);
            assert(found@ == before + added);
            assert(found@.map_values(|f: String| f@) =~= before.map_values(|f: String| f@)
                + added.map_values(|f: String| f@));
            Some(e)
        },
    }
}

} // verus!
