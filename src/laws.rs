//! Properties of extraction that hold for every input, proved over the
//! specifications of the functions they relate.
use vstd::prelude::*;

use crate::entry_path::{dot_dot, has_drive_prefix, pieces, rel_path_of, starts_at_root};
use crate::error::ArchiveError;
use crate::resolve::{is_prefix, lexical, reversed, PrefixWalk};
use crate::session::{
    first_extracted, link_candidate_of, run, size_check, step, tar_kind_of, Event, SessionModel,
};
use crate::top_dir::{all_share_first, any_nested, common_top, flatten_target, parsed_paths};

verus! {

/// An entry path with a `..` piece, a leading separator or a drive
/// designator is never accepted, so the session's `begin_entry` fails on it
/// and every later request of that session fails too.
pub proof fn lemma_unsafe_path_is_rejected(raw: Seq<char>)
    requires
        pieces(raw).contains(dot_dot()) || starts_at_root(raw) || has_drive_prefix(raw),
    ensures
        rel_path_of(raw) is None,
{
}

/// A failed session stays failed: every later request fails and nothing
/// more is recorded.
pub proof fn lemma_failure_is_final(m: SessionModel, events: Seq<Event>)
    requires
        m.failed,
    ensures
        run(m, events).0 == m,
        run(m, events).1.len() == events.len(),
        forall|i: int| 0 <= i < events.len() ==> !run(m, events).1[i],
    decreases events.len(),
{
    if events.len() > 0 {
        lemma_failure_is_final(m, events.drop_first());
        let oks = run(m, events).1;
        assert(oks == seq![false] + run(m, events.drop_first()).1);
        assert forall|i: int| 0 <= i < events.len() implies !oks[i] by {
            if i > 0 {
                assert(oks[i] == run(m, events.drop_first()).1[i - 1]);
            }
        }
    }
}

/// Once an entry with a `..` piece, a leading separator or a drive
/// designator is met, that request and every later one of the extraction
/// fail, and no file, link or symlink is recorded after it.
pub proof fn lemma_unsafe_entry_stops_extraction(
    m: SessionModel,
    raw: Seq<char>,
    later: Seq<Event>,
)
    requires
        pieces(raw).contains(dot_dot()) || starts_at_root(raw) || has_drive_prefix(raw),
    ensures
        run(m, seq![Event::Begin { raw }] + later).1.len() == later.len() + 1,
        forall|i: int|
            0 <= i <= later.len() ==> !run(m, seq![Event::Begin { raw }] + later).1[i],
        run(m, seq![Event::Begin { raw }] + later).0.written == m.written,
        run(m, seq![Event::Begin { raw }] + later).0.pending == m.pending,
        run(m, seq![Event::Begin { raw }] + later).0.failed,
{
    lemma_failed_request_stops_extraction(m, Event::Begin { raw }, later);
    let m1 = step(m, Event::Begin { raw }).0;
    lemma_failure_is_final(m1, later);
    assert((seq![Event::Begin { raw }] + later)[0] == Event::Begin { raw });
    assert((seq![Event::Begin { raw }] + later).drop_first() =~= later);
}

/// A tar entry with an unsafe path, or of a type other than directory,
/// file, symlink or hard link, ends the extraction when it is begun: before
/// any mapping, so whatever the mapping would have done with it.
pub proof fn lemma_bad_tar_entry_stops_extraction(
    m: SessionModel,
    raw: Seq<char>,
    type_byte: u8,
    later: Seq<Event>,
)
    requires
        pieces(raw).contains(dot_dot()) || starts_at_root(raw) || has_drive_prefix(raw)
            || tar_kind_of(type_byte) is None,
    ensures
        forall|i: int|
            0 <= i <= later.len() ==> !run(m, seq![Event::BeginTar { raw, type_byte }] + later).1[i],
        run(m, seq![Event::BeginTar { raw, type_byte }] + later).0.written == m.written,
        run(m, seq![Event::BeginTar { raw, type_byte }] + later).0.pending == m.pending,
{
    lemma_failed_request_stops_extraction(m, Event::BeginTar { raw, type_byte }, later);
}

/// When every entry of an archive lies below one top directory `t` and some
/// entry goes deeper, flatten-extraction detects `t` and puts `t/rest` at
/// `dest/rest`.
pub proof fn lemma_flatten_strips_shared_top(
    raws: Seq<Seq<char>>,
    dest: Seq<Seq<char>>,
    t: Seq<char>,
    raw: Seq<char>,
    rest: Seq<Seq<char>>,
)
    requires
        parsed_paths(raws).len() > 0,
        forall|i: int|
            0 <= i < parsed_paths(raws).len() ==> parsed_paths(raws)[i].len() > 0
                && parsed_paths(raws)[i][0] == t,
        any_nested(parsed_paths(raws)),
        rel_path_of(raw) == Some(seq![t] + rest),
        rest.len() > 0,
    ensures
        common_top(parsed_paths(raws)) == Some(t),
        flatten_target(raw, dest, common_top(parsed_paths(raws))) == Some(dest + rest),
{
    let ps = parsed_paths(raws);
    assert(all_share_first(ps));
    assert((seq![t] + rest).drop_first() =~= rest);
}

/// When no entry goes deeper than one segment there is no top directory to
/// strip: an entry `t` lands at `dest/t`.
pub proof fn lemma_flat_archive_is_not_stripped(
    raws: Seq<Seq<char>>,
    dest: Seq<Seq<char>>,
    raw: Seq<char>,
    rel: Seq<Seq<char>>,
)
    requires
        forall|i: int| 0 <= i < parsed_paths(raws).len() ==> parsed_paths(raws)[i].len() <= 1,
        rel_path_of(raw) == Some(rel),
    ensures
        common_top(parsed_paths(raws)) is None,
        flatten_target(raw, dest, common_top(parsed_paths(raws))) == Some(dest + rel),
{
}

/// A request that fails ends the extraction: it and every later request
/// fail, and nothing more is recorded.
pub proof fn lemma_failed_request_stops_extraction(m: SessionModel, e: Event, later: Seq<Event>)
    requires
        !step(m, e).1,
    ensures
        run(m, seq![e] + later).1.len() == later.len() + 1,
        forall|i: int| 0 <= i <= later.len() ==> !run(m, seq![e] + later).1[i],
        run(m, seq![e] + later).0.written == m.written,
        run(m, seq![e] + later).0.pending == m.pending,
{
    let events = seq![e] + later;
    assert(events[0] == e);
    assert(events.drop_first() =~= later);
    let m1 = step(m, e).0;
    assert(m1.failed && m1.written == m.written && m1.pending == m.pending);
    lemma_failure_is_final(m1, later);
    let oks = run(m, events).1;
    assert(oks == seq![false] + run(m1, later).1);
    assert forall|i: int| 0 <= i <= later.len() implies !oks[i] by {
        if i > 0 {
            assert(oks[i] == run(m1, later).1[i - 1]);
        }
    }
}

/// A file whose content yields a byte count other than its declared size
/// fails with a size mismatch, and the extraction can no longer report
/// success.
pub proof fn lemma_short_content_fails(
    m: SessionModel,
    path: Seq<Seq<char>>,
    written: u64,
    declared: u64,
    later: Seq<Event>,
)
    requires
        written != declared,
    ensures
        size_check(written, Some(declared)) == Err::<(), ArchiveError>(
            ArchiveError::SizeMismatch { expected: declared, written },
        ),
        forall|i: int|
            0 <= i <= later.len() ==> !run(
                m,
                seq![Event::FileDone { path, written, declared: Some(declared) }] + later,
            ).1[i],
{
    lemma_failed_request_stops_extraction(
        m,
        Event::FileDone { path, written, declared: Some(declared) },
        later,
    );
}

/// A hard link whose candidates name no file written so far finds no
/// target, and the extraction fails even when the target entry comes later
/// in the archive.
pub proof fn lemma_hard_link_needs_earlier_target(
    m: SessionModel,
    candidates: Seq<Seq<Seq<char>>>,
    later: Seq<Event>,
)
    requires
        forall|i: int| 0 <= i < candidates.len() ==> !m.written.contains(candidates[i]),
    ensures
        first_extracted(candidates, m.written) is None,
        forall|i: int|
            0 <= i <= later.len() ==> !run(m, seq![Event::HardLink { candidates }] + later).1[i],
{
    lemma_failed_request_stops_extraction(m, Event::HardLink { candidates }, later);
}

/// A path ends with the segments `etc`, `passwd`, or is the single segment `etc`.
pub open spec fn ends_at_etc_passwd(root: Seq<Seq<char>>) -> bool {
    (root.len() >= 2 && root[root.len() - 2] == "etc"@ && root[root.len() - 1] == "passwd"@) || (
    root.len() == 1 && root[0] == "etc"@)
}

/// A symlink directly below the root whose target climbs two levels and then
/// names `etc/passwd` resolves outside the root, whatever exists on disk
/// outside it (when no directory on the way is itself a symlink). The roots
/// left out are the filesystem root and those that end at `etc/passwd`.
/// Queuing it fails, and so does the rest of the extraction.
pub proof fn lemma_symlink_climbing_out_escapes(
    root: Seq<Seq<char>>,
    name: Seq<char>,
    target: Seq<char>,
    m: SessionModel,
    later: Seq<Event>,
)
    requires
        m.root == root,
        root.len() > 0,
        !ends_at_etc_passwd(root),
        lexical(root) == root,
        pieces(target) == seq![dot_dot(), dot_dot(), "etc"@, "passwd"@],
    ensures
        link_candidate_of(root.push(name), target) == Some(root + pieces(target)),
        !is_prefix(root, lexical(root + pieces(target))),
        forall|i: int|
            0 <= i <= later.len() ==> !run(
                m,
                seq![Event::Symlink { target, resolved: lexical(root + pieces(target)) }] + later,
            ).1[i],
{
    let ps = pieces(target);
    assert(root.push(name).drop_last() =~= root);
    let c = root + ps;
    assert(c.drop_last().drop_last().drop_last().drop_last() =~= root);
    assert(c.drop_last().drop_last().drop_last() =~= root.push(dot_dot()));
    assert(c.drop_last().drop_last() =~= root.push(dot_dot()).push(dot_dot()));
    assert(c.drop_last() =~= root.push(dot_dot()).push(dot_dot()).push("etc"@));
    assert(c =~= root.push(dot_dot()).push(dot_dot()).push("etc"@).push("passwd"@));
    reveal_strlit("etc");
    reveal_strlit("passwd");
    assert(dot_dot().len() == 2 && crate::entry_path::dot().len() == 1);
    assert(!crate::entry_path::is_skipped(dot_dot()));
    assert(!crate::entry_path::is_skipped("etc"@));
    assert(!crate::entry_path::is_skipped("passwd"@));
    assert("etc"@ != dot_dot());
    assert("passwd"@ != dot_dot());
    assert(root.push(dot_dot()).drop_last() =~= root);
    assert(root.push(dot_dot()).push(dot_dot()).drop_last() =~= root.push(dot_dot()));
    assert(root.push(dot_dot()).push(dot_dot()).push("etc"@).drop_last() =~= root.push(
        dot_dot(),
    ).push(dot_dot()));
    assert(c.drop_last() =~= root.push(dot_dot()).push(dot_dot()).push("etc"@));
    let l1 = lexical(root.push(dot_dot()));
    assert(l1 == root.drop_last());
    let l2 = lexical(root.push(dot_dot()).push(dot_dot()));
    let res = lexical(c);
    let x = root.push(dot_dot()).push(dot_dot()).push("etc"@);
    assert(x.last() == "etc"@);
    assert(lexical(x) == l2.push("etc"@));
    assert(c.last() == "passwd"@);
    assert(res == lexical(x).push("passwd"@));
    if root.len() >= 2 {
        assert(l2 == root.drop_last().drop_last());
        assert(res == root.drop_last().drop_last().push("etc"@).push("passwd"@));
        if is_prefix(root, res) {
            assert(res.take(root.len() as int) =~= res);
            assert(root[root.len() - 2] == res[root.len() - 2]);
        }
    } else {
        assert(l2 == Seq::<Seq<char>>::empty());
        assert(res =~= seq!["etc"@, "passwd"@]);
        if is_prefix(root, res) {
            assert(res.take(1)[0] == root[0]);
        }
    }
    lemma_failed_request_stops_extraction(
        m,
        Event::Symlink { target, resolved: lexical(root + pieces(target)) },
        later,
    );
}

/// Re-running an extraction resolves every output path to the same place.
/// Two walks of one mapped path may stop at different existing prefixes (the
/// second run finds more directories); where no directory on the way is a
/// symlink, each existing prefix is its own canonical form, and both walks
/// end at the lexical normal form of the path.
pub proof fn lemma_resolution_ignores_existing_prefix(
    first: PrefixWalk,
    second: PrefixWalk,
    path: Seq<Seq<char>>,
)
    requires
        first.target() == lexical(path),
        second.target() == lexical(path),
    ensures
        first.current.deep_view() + reversed(first.suffix.deep_view()) == second.current.deep_view()
            + reversed(second.suffix.deep_view()),
        first.current.deep_view() + reversed(first.suffix.deep_view()) == lexical(path),
{
}

} // verus!
