//! Detecting the one directory that wraps every entry of an archive, and
//! mapping entries to their place under a destination with it stripped.
use vstd::prelude::*;

use crate::entry_path::{is_skipped, kept, parse_entry_rel_path, pieces, rel_path_of, segs_opt};

verus! {

/// Every path has a first segment, and all first segments are the same.
pub open spec fn all_share_first(paths: Seq<Seq<Seq<char>>>) -> bool {
    &&& paths.len() > 0
    &&& forall|i: int| 0 <= i < paths.len() ==> paths[i].len() > 0 && paths[i][0] == paths[0][0]
}

/// Some path is deeper than one segment.
pub open spec fn any_nested(paths: Seq<Seq<Seq<char>>>) -> bool {
    exists|i: int| 0 <= i < paths.len() && paths[i].len() > 1
}

/// The shared top-level directory of a set of paths: present only when every
/// path starts with the same segment and at least one path goes deeper.
pub open spec fn common_top(paths: Seq<Seq<Seq<char>>>) -> Option<Seq<char>> {
    if all_share_first(paths) && any_nested(paths) {
        Some(paths[0][0])
    } else {
        None
    }
}

/// Paths as produced by the normalizer: non-empty, with a non-empty first segment.
pub open spec fn well_formed_paths(paths: Seq<Seq<Seq<char>>>) -> bool {
    forall|i: int| 0 <= i < paths.len() ==> paths[i].len() > 0 && paths[i][0].len() > 0
}

pub open spec fn opt_str(o: Option<String>) -> Option<Seq<char>> {
    match o {
        Some(s) => Some(s@),
        None => None,
    }
}

/// The state of a one-pass scan: (candidate, saw a nested path, still valid).
pub type ScanState = (Option<Seq<char>>, bool, bool);

pub open spec fn scan_start() -> ScanState {
    (None, false, true)
}

/// Folding one path into the scan state.
pub open spec fn scan_step(st: ScanState, p: Seq<Seq<char>>) -> ScanState {
    if !st.2 {
        st
    } else if p.len() == 0 || p[0].len() == 0 {
        (st.0, st.1, false)
    } else {
        let nested = st.1 || p.len() > 1;
        match st.0 {
            None => (Some(p[0]), nested, true),
            Some(c) => if c == p[0] {
                (st.0, nested, true)
            } else {
                (st.0, nested, false)
            },
        }
    }
}

pub open spec fn scan_all(paths: Seq<Seq<Seq<char>>>) -> ScanState
    decreases paths.len(),
{
    if paths.len() == 0 {
        scan_start()
    } else {
        scan_step(scan_all(paths.drop_last()), paths.last())
    }
}

pub open spec fn scan_result(st: ScanState) -> Option<Seq<char>> {
    if st.2 && st.1 {
        st.0
    } else {
        None
    }
}

pub open spec fn scan_ok(paths: Seq<Seq<Seq<char>>>) -> bool {
    forall|i: int|
        0 <= i < paths.len() ==> paths[i].len() > 0 && paths[i][0].len() > 0 && paths[i][0]
            == paths[0][0]
}

proof fn lemma_scan_all(paths: Seq<Seq<Seq<char>>>)
    ensures
        paths.len() == 0 ==> scan_all(paths) == scan_start(),
        paths.len() > 0 ==> scan_all(paths).2 == scan_ok(paths),
        paths.len() > 0 && scan_all(paths).2 ==> scan_all(paths).0 == Some(paths[0][0])
            && scan_all(paths).1 == any_nested(paths),
    decreases paths.len(),
{
    if paths.len() > 0 {
        let prev = paths.drop_last();
        let p = paths.last();
        lemma_scan_all(prev);
        let n = paths.len() - 1;
        if prev.len() > 0 && !scan_ok(prev) {
            let k = choose|k: int|
                0 <= k < prev.len() && !(prev[k].len() > 0 && prev[k][0].len() > 0 && prev[k][0]
                    == prev[0][0]);
            assert(paths[k] == prev[k]);
        }
        if prev.len() > 0 && scan_ok(prev) {
            assert(forall|i: int| 0 <= i < prev.len() ==> paths[i] == prev[i]);
            if scan_all(paths).2 {
                assert(scan_ok(paths));
                if any_nested(paths) {
                    let k = choose|k: int| 0 <= k < paths.len() && paths[k].len() > 1;
                    if k < n {
                        assert(prev[k] == paths[k]);
                    }
                }
                if any_nested(prev) {
                    let k = choose|k: int| 0 <= k < prev.len() && prev[k].len() > 1;
                    assert(paths[k] == prev[k]);
                }
            } else {
                assert(!(paths[n].len() > 0 && paths[n][0].len() > 0 && paths[n][0]
                    == paths[0][0]));
            }
        }
        if prev.len() == 0 {
            if scan_all(paths).2 {
                assert(scan_ok(paths));
                if any_nested(paths) {
                    let k = choose|k: int| 0 <= k < paths.len() && paths[k].len() > 1;
                    assert(k == 0);
                }
            } else {
                assert(!(paths[0].len() > 0 && paths[0][0].len() > 0));
            }
        }
    }
}

/// The one-pass scan and the direct definition agree on normalized paths.
pub proof fn lemma_scan_finds_common_top(paths: Seq<Seq<Seq<char>>>)
    requires
        well_formed_paths(paths),
    ensures
        scan_result(scan_all(paths)) == common_top(paths),
{
    lemma_scan_all(paths);
    if paths.len() > 0 {
        assert(scan_ok(paths) == all_share_first(paths));
    }
}

/// Fold one entry's segments into a running top-directory scan.
pub fn scan_common_top_dir(
    components: &Vec<String>,
    candidate: &mut Option<String>,
    saw_nested: &mut bool,
    valid: &mut bool,
)
    ensures
        (opt_str(*final(candidate)), *final(saw_nested), *final(valid)) == scan_step(
            (opt_str(*old(candidate)), *old(saw_nested), *old(valid)),
            components.deep_view(),
        ),
{
    if !*valid {
        return;
    }
    assert(components.len() > 0 ==> components.deep_view()[0] == components[0]@);
    if components.len() == 0 || components[0].unicode_len() == 0 {
        *valid = false;
        return;
    }
    if components.len() > 1 {
        *saw_nested = true;
    }
    let first = &components[0];
    match candidate {
        None => {
            *candidate = Some(first.clone());
        },
        Some(existing) => {
            if !(*existing == *first) {
                *valid = false;
            }
        },
    }
}

/// The outcome of a finished scan.
pub fn finalize_common_top_dir(candidate: Option<String>, saw_nested: bool, valid: bool) -> (r:
    Option<String>)
    ensures
        opt_str(r) == scan_result((opt_str(candidate), saw_nested, valid)),
{
    if valid && saw_nested {
        candidate
    } else {
        None
    }
}

/// The strict relative paths of the raw paths that have one, in order.
pub open spec fn parsed_paths(raws: Seq<Seq<char>>) -> Seq<Seq<Seq<char>>>
    decreases raws.len(),
{
    if raws.len() == 0 {
        seq![]
    } else {
        let prev = parsed_paths(raws.drop_last());
        match rel_path_of(raws.last()) {
            Some(p) => prev.push(p),
            None => prev,
        }
    }
}

proof fn lemma_kept_named(ps: Seq<Seq<char>>)
    ensures
        forall|i: int| 0 <= i < kept(ps).len() ==> kept(ps)[i].len() > 0,
    decreases ps.len(),
{
    if ps.len() > 0 {
        let prev = kept(ps.drop_last());
        lemma_kept_named(ps.drop_last());
        if !is_skipped(ps.last()) {
            assert(forall|i: int| 0 <= i < prev.len() ==> prev.push(ps.last())[i] == prev[i]);
        }
    }
}

proof fn lemma_parsed_well_formed(raws: Seq<Seq<char>>)
    ensures
        well_formed_paths(parsed_paths(raws)),
    decreases raws.len(),
{
    if raws.len() > 0 {
        lemma_parsed_well_formed(raws.drop_last());
        if let Some(p) = rel_path_of(raws.last()) {
            lemma_kept_named(pieces(raws.last()));
            let prev = parsed_paths(raws.drop_last());
            assert(forall|i: int| 0 <= i < prev.len() ==> prev.push(p)[i] == prev[i]);
        }
    }
}

/// Detect the shared top-level directory of a list of raw entry paths; the
/// paths that are not safe relative paths take no part.
pub fn detect_common_top_dir(paths: &Vec<String>) -> (r: Option<String>)
    ensures
        opt_str(r) == common_top(parsed_paths(paths.deep_view())),
{
    let mut candidate: Option<String> = None;
    let mut saw_nested = false;
    let mut valid = true;
    let mut i: usize = 0;
    while i < paths.len()
        invariant
            i <= paths.len(),
            (opt_str(candidate), saw_nested, valid) == scan_all(
                parsed_paths(paths.deep_view().take(i as int)),
            ),
        decreases paths.len() - i,
    {
        let ghost raws = paths.deep_view();
        proof {
            assert(raws.take(i + 1).drop_last() =~= raws.take(i as int));
            assert(raws.take(i + 1).last() == paths[i as int]@);
        }
        match parse_entry_rel_path(&paths[i]) {
            Some(relative) => {
                scan_common_top_dir(&relative, &mut candidate, &mut saw_nested, &mut valid);
                proof {
                    let prev = parsed_paths(raws.take(i as int));
                    assert(prev.push(relative.deep_view()).drop_last() =~= prev);
                }
            },
            None => {},
        }
        i = i + 1;
    }
    proof {
        assert(paths.deep_view().take(paths.len() as int) =~= paths.deep_view());
        lemma_parsed_well_formed(paths.deep_view());
        lemma_scan_finds_common_top(parsed_paths(paths.deep_view()));
    }
    finalize_common_top_dir(candidate, saw_nested, valid)
}

/// The segments after the first one.
pub(crate) fn rest_after_first(v: &Vec<String>) -> (r: Vec<String>)
    requires
        v.len() >= 1,
    ensures
        r.deep_view() == v.deep_view().drop_first(),
{
    let mut rest: Vec<String> = Vec::new();
    let mut i: usize = 1;
    while i < v.len()
        invariant
            1 <= i <= v.len(),
            rest.len() == i - 1,
            forall|j: int| 0 <= j < rest.len() ==> rest[j]@ == v[j + 1]@,
        decreases v.len() - i,
    {
        rest.push(v[i].clone());
        i = i + 1;
    }
    assert(rest.deep_view() =~= v.deep_view().drop_first());
    rest
}

/// A relative path with the top directory taken off: unchanged without a top
/// directory, nothing when it does not start with it or is the top itself.
pub open spec fn strip_top(rel: Seq<Seq<char>>, top: Option<Seq<char>>) -> Option<Seq<Seq<char>>> {
    match top {
        None => Some(rel),
        Some(t) => if rel.len() > 1 && rel[0] == t {
            Some(rel.drop_first())
        } else {
            None
        },
    }
}

/// Strip the common top-level directory from a relative path, if present.
pub fn strip_common_top_dir(relative: &Vec<String>, top_dir: Option<&String>) -> (r: Option<
    Vec<String>,
>)
    ensures
        segs_opt(r) == strip_top(relative.deep_view(), opt_ref_str(top_dir)),
{
    match top_dir {
        None => Some(relative.clone()),
        Some(top) => {
            if relative.len() > 1 && relative[0] == *top {
                Some(rest_after_first(relative))
            } else {
                None
            }
        },
    }
}

pub open spec fn opt_ref_str(o: Option<&String>) -> Option<Seq<char>> {
    match o {
        Some(s) => Some(s@),
        None => None,
    }
}

/// Where flatten-extraction puts an entry: its strict relative path, stripped
/// of the top directory, under the destination.
pub open spec fn flatten_target(raw: Seq<char>, dest: Seq<Seq<char>>, top: Option<Seq<char>>) -> Option<
    Seq<Seq<char>>,
> {
    match rel_path_of(raw) {
        None => None,
        Some(rel) => match strip_top(rel, top) {
            None => None,
            Some(rest) => Some(dest + rest),
        },
    }
}

pub(crate) fn append_segments(dest: &Vec<String>, rest: &Vec<String>) -> (r: Vec<String>)
    ensures
        r.deep_view() == dest.deep_view() + rest.deep_view(),
{
    let mut out: Vec<String> = Vec::new();
    let mut k: usize = 0;
    while k < dest.len()
        invariant
            k <= dest.len(),
            out.len() == k,
            forall|j: int| 0 <= j < k ==> out[j]@ == dest[j]@,
        decreases dest.len() - k,
    {
        out.push(dest[k].clone());
        k = k + 1;
    }
    let mut i: usize = 0;
    while i < rest.len()
        invariant
            i <= rest.len(),
            out.len() == dest.len() + i,
            forall|j: int| 0 <= j < dest.len() ==> out[j]@ == dest[j]@,
            forall|j: int| 0 <= j < i ==> out[dest.len() + j]@ == rest[j]@,
        decreases rest.len() - i,
    {
        out.push(rest[i].clone());
        i = i + 1;
    }
    assert(out.deep_view() =~= dest.deep_view() + rest.deep_view());
    out
}

/// The destination mapping of flatten-extraction.
pub fn flatten_destination(raw_path: &str, dest_dir: &Vec<String>, top_dir: Option<&String>) -> (r:
    Option<Vec<String>>)
    ensures
        segs_opt(r) == flatten_target(raw_path@, dest_dir.deep_view(), opt_ref_str(top_dir)),
{
    let relative = match parse_entry_rel_path(raw_path) {
        Some(v) => v,
        None => return None,
    };
    let stripped = match strip_common_top_dir(&relative, top_dir) {
        Some(v) => v,
        None => return None,
    };
    Some(append_segments(dest_dir, &stripped))
}

} // verus!
