//! Building output paths for archive entries.
use vstd::prelude::*;

pub use crate::entry_path::normalize_archive_components;
use crate::entry_path::{components_of, kept, pieces, segs_opt};
use crate::top_dir::{all_share_first, append_segments, common_top, opt_ref_str, opt_str, rest_after_first};

verus! {

/// A component that may be placed under a directory: the lenient reading
/// accepts it (not rooted, no drive designator, no `..` piece).
pub open spec fn component_ok(c: Seq<char>) -> bool {
    components_of(c) is Some
}

/// The segments that components add to a path: the named pieces of each.
pub open spec fn component_segments(comps: Seq<Seq<char>>) -> Seq<Seq<char>>
    decreases comps.len(),
{
    if comps.len() == 0 {
        seq![]
    } else {
        component_segments(comps.drop_last()) + kept(pieces(comps.last()))
    }
}

/// The output path of `comps` under `dest`: refused when a component is
/// rooted, drive-designated or climbs with `..`; empty and `.` pieces add nothing.
pub open spec fn output_path_of(dest: Seq<Seq<char>>, comps: Seq<Seq<char>>) -> Option<
    Seq<Seq<char>>,
> {
    if forall|i: int| 0 <= i < comps.len() ==> component_ok(comps[i]) {
        Some(dest + component_segments(comps))
    } else {
        None
    }
}

pub open spec fn paths_view(s: Seq<Vec<String>>) -> Seq<Seq<Seq<char>>> {
    s.map_values(|p: Vec<String>| p.deep_view())
}

/// Build an output path from a base directory and path components, or `None`
/// when a component is rooted, drive-designated or holds a `..` piece.
pub fn build_output_path(dest_dir: &Vec<String>, components: &Vec<String>) -> (r: Option<
    Vec<String>,
>)
    ensures
        segs_opt(r) == output_path_of(dest_dir.deep_view(), components.deep_view()),
{
    let ghost comps = components.deep_view();
    let mut out = append_segments(dest_dir, &Vec::new());
    assert(dest_dir.deep_view() + Seq::<Seq<char>>::empty() =~= dest_dir.deep_view());
    let mut i: usize = 0;
    assert(comps.take(0) =~= Seq::<Seq<char>>::empty());
    while i < components.len()
        invariant
            i <= components.len(),
            comps == components.deep_view(),
            forall|j: int| 0 <= j < i ==> component_ok(comps[j]),
            out.deep_view() == dest_dir.deep_view() + component_segments(comps.take(i as int)),
        decreases components.len() - i,
    {
        let c = components[i].as_str();
        assert(comps[i as int] == c@);
        let named = match normalize_archive_components(c) {
            Some(v) => v,
            None => return None,
        };
        proof {
            assert(comps.take(i + 1).drop_last() =~= comps.take(i as int));
            assert(comps.take(i + 1).last() == c@);
        }
        out = append_segments(&out, &named);
        assert(out.deep_view() =~= dest_dir.deep_view() + component_segments(comps.take(i + 1)));
        i = i + 1;
    }
    assert(comps.take(components.len() as int) =~= comps);
    Some(out)
}

/// Detect a common top-level directory shared by all paths: every path starts
/// with the same segment and at least one path goes deeper.
pub fn detect_common_top_dir(paths: &[Vec<String>]) -> (r: Option<String>)
    ensures
        opt_str(r) == common_top(paths_view(paths@)),
{
    let ghost pv = paths_view(paths@);
    if paths.len() == 0 {
        return None;
    }
    assert(pv[0] == paths[0].deep_view());
    if paths[0].len() == 0 {
        return None;
    }
    let candidate = &paths[0][0];
    assert(pv[0][0] == candidate@);
    let mut nested = false;
    let mut i: usize = 0;
    while i < paths.len()
        invariant
            i <= paths.len(),
            pv == paths_view(paths@),
            pv.len() == paths.len(),
            pv[0].len() > 0,
            candidate@ == pv[0][0],
            forall|j: int| 0 <= j < i ==> pv[j].len() > 0 && pv[j][0] == pv[0][0],
            nested == exists|j: int| 0 <= j < i && pv[j].len() > 1,
        decreases paths.len() - i,
    {
        let p = &paths[i];
        assert(pv[i as int] == p.deep_view());
        assert(p.len() > 0 ==> p.deep_view()[0] == p[0]@);
        if p.len() == 0 || !(p[0] == *candidate) {
            assert(!(pv[i as int].len() > 0 && pv[i as int][0] == pv[0][0]));
            return None;
        }
        if p.len() > 1 {
            nested = true;
        }
        i = i + 1;
    }
    assert(all_share_first(pv));
    if nested {
        Some(candidate.clone())
    } else {
        None
    }
}

/// The lenient components with the top directory taken off when they start with it.
pub open spec fn without_top(c: Seq<Seq<char>>, top: Option<Seq<char>>) -> Seq<Seq<char>> {
    match top {
        Some(t) => if c.len() > 0 && c[0] == t {
            c.drop_first()
        } else {
            c
        },
        None => c,
    }
}

/// Where a raw entry path lands under `dest`, with the top directory stripped.
pub open spec fn output_for(raw: Seq<char>, dest: Seq<Seq<char>>, top: Option<Seq<char>>) -> Option<
    Seq<Seq<char>>,
> {
    match components_of(raw) {
        None => None,
        Some(c) => if without_top(c, top).len() == 0 {
            None
        } else {
            output_path_of(dest, without_top(c, top))
        },
    }
}

/// Map a raw entry path to its output path under `dest_dir`.
pub fn resolve_output_path(raw_path: &str, dest_dir: &Vec<String>, top_dir: Option<&String>) -> (r:
    Option<Vec<String>>)
    ensures
        segs_opt(r) == output_for(raw_path@, dest_dir.deep_view(), opt_ref_str(top_dir)),
{
    let components = match normalize_archive_components(raw_path) {
        Some(c) => c,
        None => return None,
    };
    let components = match top_dir {
        Some(top) => {
            if components.len() > 0 && components[0] == *top {
                rest_after_first(&components)
            } else {
                components
            }
        },
        None => components,
    };
    if components.len() == 0 {
        return None;
    }
    build_output_path(dest_dir, &components)
}

} // verus!
