//! One extraction of one archive, as a state machine.
//!
//! The caller reads entries in archive order and touches the filesystem; for
//! each entry it asks the session what to do and reports what happened. The
//! session records the files written so far (hard links may only name those)
//! and the symlinks to create once every other entry is in place. After the
//! first failure every further request fails too, so a failed extraction can
//! never be reported as a success.
use vstd::prelude::*;
use vstd::string::*;

use crate::entry_path::{
    has_drive_prefix, has_windows_drive_prefix, pieces, rel_path_of, starts_at_root,
};
use crate::error::ArchiveError;
use crate::resolve::{check_within, is_prefix};

verus! {

/// The four kinds of entry an extraction handles.
#[derive(Debug, Clone, Copy, PartialEq, Eq, Structural)]
pub enum EntryKind {
    Directory,
    File,
    Symlink,
    HardLink,
}

/// An entry whose raw path passed the check of a session that had not
/// failed. Only the session makes one, so a destination mapping that takes it
/// can only be applied to checked entries.
pub struct CheckedEntry {
    raw: String,
    rel: Vec<String>,
}

impl CheckedEntry {
    pub closed spec fn spec_raw(&self) -> Seq<char> {
        self.raw@
    }

    pub closed spec fn spec_rel(&self) -> Seq<Seq<char>> {
        self.rel.deep_view()
    }

    /// The relative segments are those of the raw path.
    pub open spec fn wf(&self) -> bool {
        rel_path_of(self.spec_raw()) == Some(self.spec_rel())
    }

    /// The raw path as stored in the archive.
    pub fn raw_path(&self) -> (r: &str)
        ensures
            r@ == self.spec_raw(),
    {
        self.raw.as_str()
    }

    /// The safe relative segments of the raw path.
    pub fn relative(&self) -> (r: &Vec<String>)
        ensures
            r.deep_view() == self.spec_rel(),
    {
        &self.rel
    }
}

/// A symlink whose creation waits until all other entries are written.
pub struct QueuedSymlink {
    pub out_path: Vec<String>,
    pub target: String,
    pub resolved_target: Vec<String>,
}

/// Why a link target is refused, if it is.
pub open spec fn link_target_error(t: Seq<char>) -> Option<ArchiveError> {
    if t.len() == 0 {
        Some(ArchiveError::EmptyLinkTarget)
    } else if starts_at_root(t) {
        Some(ArchiveError::AbsoluteLinkTarget)
    } else if has_drive_prefix(t) {
        Some(ArchiveError::PrefixedLinkTarget)
    } else {
        None
    }
}

/// Check that a link target is a non-empty relative path.
pub fn validate_rel_link_target(target: &str) -> (r: Result<(), ArchiveError>)
    ensures
        match link_target_error(target@) {
            Some(e) => r == Err::<(), ArchiveError>(e),
            None => r is Ok,
        },
{
    let n = target.unicode_len();
    if n == 0 {
        return Err(ArchiveError::EmptyLinkTarget);
    }
    let c0 = target.get_char(0);
    if c0 == '/' || c0 == '\\' {
        return Err(ArchiveError::AbsoluteLinkTarget);
    }
    if has_windows_drive_prefix(target) {
        return Err(ArchiveError::PrefixedLinkTarget);
    }
    Ok(())
}

/// All pieces of a raw path, `..` and empty ones included.
pub(crate) fn split_pieces(raw: &str) -> (r: Vec<String>)
    ensures
        r.deep_view() == pieces(raw@),
{
    let n = raw.unicode_len();
    let mut out: Vec<String> = Vec::new();
    let mut start: usize = 0;
    let mut i: usize = 0;
    assert(raw@.take(0) =~= Seq::<char>::empty());
    assert(raw@.subrange(0, 0) =~= Seq::<char>::empty());
    while i < n
        invariant
            n == raw@.len(),
            start <= i <= n,
            pieces(raw@.take(i as int)) == out.deep_view().push(
                raw@.subrange(start as int, i as int),
            ),
        decreases n - i,
    {
        let c = raw.get_char(i);
        proof {
            crate::entry_path::lemma_pieces_step(raw@, i as int, start as int, out.deep_view());
        }
        if c == '/' || c == '\\' {
            let piece = raw.substring_char(start, i).to_owned();
            let ghost before = out.deep_view();
            out.push(piece);
            assert(out.deep_view() =~= before.push(raw@.subrange(start as int, i as int)));
            start = i + 1;
        }
        i = i + 1;
    }
    assert(raw@.take(n as int) =~= raw@);
    let last = raw.substring_char(start, n).to_owned();
    let ghost before = out.deep_view();
    out.push(last);
    assert(out.deep_view() =~= before.push(raw@.subrange(start as int, n as int)));
    out
}

/// The path a link's target names before normalization: the link's parent
/// directory followed by every piece of the target.
pub open spec fn link_candidate_of(out_path: Seq<Seq<char>>, target: Seq<char>) -> Option<
    Seq<Seq<char>>,
> {
    if out_path.len() == 0 {
        None
    } else {
        Some(out_path.drop_last() + pieces(target))
    }
}

/// Where a relative link target points from the link at `out_path`.
pub fn resolve_relative_symlink_target(out_path: &Vec<String>, target: &str) -> (r: Result<
    Vec<String>,
    ArchiveError,
>)
    ensures
        match link_candidate_of(out_path.deep_view(), target@) {
            Some(c) => (r matches Ok(v) && v.deep_view() == c),
            None => r == Err::<Vec<String>, ArchiveError>(ArchiveError::NoParent),
        },
{
    if out_path.len() == 0 {
        return Err(ArchiveError::NoParent);
    }
    let parts = split_pieces(target);
    let mut out: Vec<String> = Vec::new();
    let mut i: usize = 0;
    while i + 1 < out_path.len()
        invariant
            out_path.len() >= 1,
            i + 1 <= out_path.len(),
            out.len() == i,
            forall|j: int| 0 <= j < i ==> out[j]@ == out_path[j]@,
        decreases out_path.len() - i,
    {
        out.push(out_path[i].clone());
        i = i + 1;
    }
    let mut k: usize = 0;
    while k < parts.len()
        invariant
            out_path.len() >= 1,
            k <= parts.len(),
            out.len() == out_path.len() - 1 + k,
            forall|j: int| 0 <= j < out_path.len() - 1 ==> out[j]@ == out_path[j]@,
            forall|j: int| 0 <= j < k ==> out[out_path.len() - 1 + j]@ == parts[j]@,
        decreases parts.len() - k,
    {
        out.push(parts[k].clone());
        k = k + 1;
    }
    assert(out.deep_view() =~= out_path.deep_view().drop_last() + parts.deep_view());
    Ok(out)
}

/// Relies on tar::EntryType::new and EntryType::is_file: type bytes `0` and NUL are regular files.
#[verifier::external_body]
fn tar_type_is_file(type_byte: u8) -> (r: bool)
    ensures
        r == (type_byte == 0u8 || type_byte == 48u8),
{
    tar::EntryType::new(type_byte).is_file()
}

/// Relies on tar::EntryType::new and EntryType::is_dir: type byte `5` is a directory.
#[verifier::external_body]
fn tar_type_is_dir(type_byte: u8) -> (r: bool)
    ensures
        r == (type_byte == 53u8),
{
    tar::EntryType::new(type_byte).is_dir()
}

/// Relies on tar::EntryType::new and EntryType::is_symlink: type byte `2` is a symlink.
#[verifier::external_body]
fn tar_type_is_symlink(type_byte: u8) -> (r: bool)
    ensures
        r == (type_byte == 50u8),
{
    tar::EntryType::new(type_byte).is_symlink()
}

/// Relies on tar::EntryType::new and EntryType::is_hard_link: type byte `1` is a hard link.
#[verifier::external_body]
fn tar_type_is_hard_link(type_byte: u8) -> (r: bool)
    ensures
        r == (type_byte == 49u8),
{
    tar::EntryType::new(type_byte).is_hard_link()
}

/// The entry kind a tar header's type byte stands for, if it is one of the four.
pub open spec fn tar_kind_of(type_byte: u8) -> Option<EntryKind> {
    if type_byte == 0u8 || type_byte == 48u8 {
        Some(EntryKind::File)
    } else if type_byte == 53u8 {
        Some(EntryKind::Directory)
    } else if type_byte == 50u8 {
        Some(EntryKind::Symlink)
    } else if type_byte == 49u8 {
        Some(EntryKind::HardLink)
    } else {
        None
    }
}

/// The outcome of checking a written file against its declared size.
pub open spec fn size_check(written: u64, declared: Option<u64>) -> Result<(), ArchiveError> {
    match declared {
        Some(expected) => if written == expected {
            Ok(())
        } else {
            Err(ArchiveError::SizeMismatch { expected, written })
        },
        None => Ok(()),
    }
}

/// The first candidate that is a file written earlier, if any.
pub open spec fn first_extracted(
    candidates: Seq<Seq<Seq<char>>>,
    extracted: Seq<Seq<Seq<char>>>,
) -> Option<int> {
    if exists|i: int| 0 <= i < candidates.len() && extracted.contains(candidates[i]) {
        Some(
            choose|i: int|
                0 <= i < candidates.len() && extracted.contains(candidates[i]) && forall|j: int|
                    0 <= j < i ==> !extracted.contains(#[trigger] candidates[j]),
        )
    } else {
        None
    }
}

/// Every candidate lies under the root.
pub open spec fn all_within(root: Seq<Seq<char>>, candidates: Seq<Seq<Seq<char>>>) -> bool {
    forall|i: int| 0 <= i < candidates.len() ==> is_prefix(root, candidates[i])
}

/// The state of one extraction.
pub struct ExtractionSession {
    /// The canonical destination root.
    pub root: Vec<String>,
    /// Canonical paths of the files and hard links written so far, in order.
    pub extracted: Vec<Vec<String>>,
    /// Symlinks to create at the end.
    pub pending: Vec<QueuedSymlink>,
    /// Whether an entry has already failed.
    pub failed: bool,
}

pub open spec fn paths_of(v: Seq<Vec<String>>) -> Seq<Seq<Seq<char>>> {
    v.map_values(|p: Vec<String>| p.deep_view())
}

/// What a session records, as mathematical values.
pub struct SessionModel {
    pub root: Seq<Seq<char>>,
    pub written: Seq<Seq<Seq<char>>>,
    pub pending: nat,
    pub failed: bool,
}

/// One request made of a session during an extraction.
pub enum Event {
    Begin { raw: Seq<char> },
    Admit { path: Seq<Seq<char>> },
    BeginTar { raw: Seq<char>, type_byte: u8 },
    FileDone { path: Seq<Seq<char>>, written: u64, declared: Option<u64> },
    HardLinkCandidates { out: Seq<Seq<char>>, target: Seq<char> },
    HardLink { candidates: Seq<Seq<Seq<char>>> },
    HardLinkDone { path: Seq<Seq<char>> },
    Symlink { target: Seq<char>, resolved: Seq<Seq<char>> },
    Failure,
    Finish,
}

pub open spec fn failed_model(m: SessionModel) -> SessionModel {
    SessionModel { failed: true, ..m }
}

/// The session after one request, and whether the request succeeded.
pub open spec fn step(m: SessionModel, e: Event) -> (SessionModel, bool) {
    if m.failed {
        (m, false)
    } else {
        match e {
            Event::Begin { raw } => if rel_path_of(raw) is Some {
                (m, true)
            } else {
                (failed_model(m), false)
            },
            Event::Admit { path } => if is_prefix(m.root, path) {
                (m, true)
            } else {
                (failed_model(m), false)
            },
            Event::BeginTar { raw, type_byte } => if rel_path_of(raw) is Some && tar_kind_of(
                type_byte,
            ) is Some {
                (m, true)
            } else {
                (failed_model(m), false)
            },
            Event::FileDone { path, written, declared } => if size_check(written, declared) is Ok {
                (SessionModel { written: m.written.push(path), ..m }, true)
            } else {
                (failed_model(m), false)
            },
            Event::HardLinkCandidates { out, target } => if link_target_error(target) is None
                && out.len() > 0 {
                (m, true)
            } else {
                (failed_model(m), false)
            },
            Event::HardLink { candidates } => if all_within(m.root, candidates) && first_extracted(
                candidates,
                m.written,
            ) is Some {
                (m, true)
            } else {
                (failed_model(m), false)
            },
            Event::HardLinkDone { path } => (
                SessionModel { written: m.written.push(path), ..m },
                true,
            ),
            Event::Symlink { target, resolved } => if link_target_error(target) is None
                && is_prefix(m.root, resolved) {
                (SessionModel { pending: m.pending + 1, ..m }, true)
            } else {
                (failed_model(m), false)
            },
            Event::Failure => (failed_model(m), false),
            Event::Finish => (SessionModel { pending: 0, ..m }, true),
        }
    }
}

/// The session after a sequence of requests, and which of them succeeded.
pub open spec fn run(m: SessionModel, events: Seq<Event>) -> (SessionModel, Seq<bool>)
    decreases events.len(),
{
    if events.len() == 0 {
        (m, seq![])
    } else {
        let (m1, ok) = step(m, events[0]);
        let (m2, oks) = run(m1, events.drop_first());
        (m2, seq![ok] + oks)
    }
}

impl ExtractionSession {
    pub open spec fn model(&self) -> SessionModel {
        SessionModel {
            root: self.root.deep_view(),
            written: self.written(),
            pending: self.pending@.len(),
            failed: self.failed,
        }
    }

    pub open spec fn written(&self) -> Seq<Seq<Seq<char>>> {
        paths_of(self.extracted@)
    }

    /// Whether nothing but the failure flag differs between two states.
    pub open spec fn same_records(&self, other: &Self) -> bool {
        &&& self.root.deep_view() == other.root.deep_view()
        &&& self.written() == other.written()
        &&& self.pending@.len() == other.pending@.len()
    }

    /// A fresh session for one extraction into `root`.
    pub fn new(root: Vec<String>) -> (r: Self)
        ensures
            r.root == root,
            r.written().len() == 0,
            r.pending@.len() == 0,
            !r.failed,
    {
        let s = ExtractionSession { root, extracted: Vec::new(), pending: Vec::new(), failed: false };
        assert(s.written() =~= Seq::<Seq<Seq<char>>>::empty());
        s
    }

    /// Check an entry's raw path. Only a safe path of a session that has not
    /// failed yields a `CheckedEntry`, which is what destination mappings take.
    pub fn begin_entry(&mut self, raw_path: &str) -> (r: Result<CheckedEntry, ArchiveError>)
        ensures
            (final(self).model(), r is Ok) == step(old(self).model(), Event::Begin { raw: raw_path@ }),
            final(self).same_records(old(self)),
            old(self).failed ==> r == Err::<CheckedEntry, ArchiveError>(ArchiveError::Aborted),
            !old(self).failed && rel_path_of(raw_path@) is None ==> r == Err::<
                CheckedEntry,
                ArchiveError,
            >(ArchiveError::UnsafeEntryPath),
            r matches Ok(c) ==> c.wf() && c.spec_raw() == raw_path@,
            final(self).failed == (r is Err),
    {
        if self.failed {
            return Err(ArchiveError::Aborted);
        }
        match crate::entry_path::parse_entry_rel_path(raw_path) {
            None => {
                self.failed = true;
                Err(ArchiveError::UnsafeEntryPath)
            },
            Some(rel) => Ok(CheckedEntry { raw: raw_path.to_owned(), rel }),
        }
    }

    /// Check a tar entry: its raw path, then its type. Both checks come before
    /// any mapping, so an unsafe path or an unsupported type is fatal whatever
    /// the mapping would do with the entry.
    pub fn begin_tar_entry(&mut self, raw_path: &str, type_byte: u8) -> (r: Result<
        (CheckedEntry, EntryKind),
        ArchiveError,
    >)
        ensures
            (final(self).model(), r is Ok) == step(
                old(self).model(),
                Event::BeginTar { raw: raw_path@, type_byte },
            ),
            final(self).same_records(old(self)),
            old(self).failed ==> r == Err::<(CheckedEntry, EntryKind), ArchiveError>(
                ArchiveError::Aborted,
            ),
            !old(self).failed && rel_path_of(raw_path@) is None ==> r == Err::<
                (CheckedEntry, EntryKind),
                ArchiveError,
            >(ArchiveError::UnsafeEntryPath),
            !old(self).failed && rel_path_of(raw_path@) is Some && tar_kind_of(type_byte) is None
                ==> r == Err::<(CheckedEntry, EntryKind), ArchiveError>(
                ArchiveError::UnsupportedEntryType,
            ),
            r matches Ok((c, k)) ==> c.wf() && c.spec_raw() == raw_path@ && tar_kind_of(type_byte)
                == Some(k),
            final(self).failed == (r is Err),
    {
        let entry = match self.begin_entry(raw_path) {
            Err(e) => return Err(e),
            Ok(c) => c,
        };
        if tar_type_is_file(type_byte) {
            Ok((entry, EntryKind::File))
        } else if tar_type_is_dir(type_byte) {
            Ok((entry, EntryKind::Directory))
        } else if tar_type_is_symlink(type_byte) {
            Ok((entry, EntryKind::Symlink))
        } else if tar_type_is_hard_link(type_byte) {
            Ok((entry, EntryKind::HardLink))
        } else {
            self.failed = true;
            Err(ArchiveError::UnsupportedEntryType)
        }
    }

    /// The target of a hard link as an entry the destination mapping may
    /// route, when it is a safe relative path and the session has not failed.
    pub fn link_target_entry(&self, target: &str) -> (r: Option<CheckedEntry>)
        ensures
            r is Some <==> !self.failed && rel_path_of(target@) is Some,
            r matches Some(c) ==> c.wf() && c.spec_raw() == target@,
    {
        if self.failed {
            return None;
        }
        match crate::entry_path::parse_entry_rel_path(target) {
            None => None,
            Some(rel) => Some(CheckedEntry { raw: target.to_owned(), rel }),
        }
    }

    /// Accept the canonical output path of an entry if it stays under the root.
    pub fn admit_output(&mut self, canonical: Vec<String>) -> (r: Result<Vec<String>, ArchiveError>)
        ensures
            (final(self).model(), r is Ok) == step(
                old(self).model(),
                Event::Admit { path: canonical.deep_view() },
            ),
            final(self).same_records(old(self)),
            old(self).failed ==> r == Err::<Vec<String>, ArchiveError>(ArchiveError::Aborted),
            !old(self).failed ==> (if is_prefix(old(self).root.deep_view(), canonical.deep_view()) {
                r == Ok::<Vec<String>, ArchiveError>(canonical)
            } else {
                r == Err::<Vec<String>, ArchiveError>(ArchiveError::EscapesDestination)
            }),
            final(self).failed == (r is Err),
    {
        if self.failed {
            return Err(ArchiveError::Aborted);
        }
        let r = check_within(&self.root, canonical);
        if r.is_err() {
            self.failed = true;
        }
        r
    }

    /// Report a file entry written to `out_path` with `written` bytes; the
    /// count must equal the declared size when the archive declares one.
    pub fn finish_file(&mut self, out_path: Vec<String>, written: u64, declared: Option<u64>) -> (r:
        Result<(), ArchiveError>)
        ensures
            (final(self).model(), r is Ok) == step(
                old(self).model(),
                Event::FileDone { path: out_path.deep_view(), written, declared },
            ),
            final(self).root == old(self).root,
            final(self).pending@.len() == old(self).pending@.len(),
            old(self).failed ==> r == Err::<(), ArchiveError>(ArchiveError::Aborted),
            !old(self).failed ==> r == size_check(written, declared),
            r is Ok ==> final(self).written() == old(self).written().push(out_path.deep_view()),
            r is Err ==> final(self).written() == old(self).written(),
            final(self).failed == (r is Err),
    {
        if self.failed {
            return Err(ArchiveError::Aborted);
        }
        match declared {
            Some(expected) => {
                if written != expected {
                    self.failed = true;
                    return Err(ArchiveError::SizeMismatch { expected, written });
                }
            },
            None => {},
        }
        self.record(out_path);
        Ok(())
    }

    fn record(&mut self, out_path: Vec<String>)
        ensures
            final(self).root == old(self).root,
            final(self).failed == old(self).failed,
            final(self).pending@.len() == old(self).pending@.len(),
            final(self).written() == old(self).written().push(out_path.deep_view()),
    {
        let ghost before = self.written();
        self.extracted.push(out_path);
        assert(self.written() =~= before.push(out_path.deep_view()));
    }

    /// Choose the target of a hard link: the first candidate that is a file
    /// written earlier in this extraction.
    pub fn resolve_hard_link(&mut self, candidates: &Vec<Vec<String>>) -> (r: Result<
        Vec<String>,
        ArchiveError,
    >)
        ensures
            (final(self).model(), r is Ok) == step(
                old(self).model(),
                Event::HardLink { candidates: paths_of(candidates@) },
            ),
            final(self).same_records(old(self)),
            old(self).failed ==> r == Err::<Vec<String>, ArchiveError>(ArchiveError::Aborted),
            !old(self).failed && !all_within(old(self).root.deep_view(), paths_of(candidates@))
                ==> r == Err::<Vec<String>, ArchiveError>(ArchiveError::EscapesDestination),
            !old(self).failed && all_within(old(self).root.deep_view(), paths_of(candidates@))
                ==> match first_extracted(paths_of(candidates@), old(self).written()) {
                Some(i) => (r matches Ok(t) && t.deep_view() == paths_of(candidates@)[i]),
                None => r == Err::<Vec<String>, ArchiveError>(ArchiveError::BrokenHardLink),
            },
            final(self).failed == (r is Err),
    {
        if self.failed {
            return Err(ArchiveError::Aborted);
        }
        let ghost cs = paths_of(candidates@);
        let ghost ws = self.written();
        if !self.candidates_within(candidates) {
            self.failed = true;
            return Err(ArchiveError::EscapesDestination);
        }
        assert(all_within(self.root.deep_view(), cs));
        let ghost s0 = *self;
        let mut i: usize = 0;
        while i < candidates.len()
            invariant
                *self == s0,
                s0 == *old(self),
                all_within(self.root.deep_view(), cs),
                i <= candidates.len(),
                cs == paths_of(candidates@),
                ws == self.written(),
                !self.failed,
                forall|j: int| 0 <= j < i ==> !ws.contains(#[trigger] cs[j]),
            decreases candidates.len() - i,
        {
            if self.was_written(&candidates[i]) {
                proof {
                    assert(cs[i as int] == candidates[i as int].deep_view());
                    let k = first_extracted(cs, ws);
                    assert(k is Some);
                    let kk = k->0;
                    assert(kk == i as int) by {
                        if kk < i {
                            assert(!ws.contains(cs[kk]));
                        }
                        if kk > i {
                            assert(!ws.contains(cs[i as int]));
                        }
                    }
                }
                return Ok(crate::resolve::copy_segments(&candidates[i]));
            }
            assert(cs[i as int] == candidates[i as int].deep_view());
            i = i + 1;
        }
        proof {
            if exists|i: int| 0 <= i < cs.len() && ws.contains(cs[i]) {
                let k = choose|i: int| 0 <= i < cs.len() && ws.contains(cs[i]);
                assert(!ws.contains(cs[k]));
            }
        }
        self.failed = true;
        Err(ArchiveError::BrokenHardLink)
    }

    /// The paths a hard link's target may name, before canonicalization: the
    /// mapped destination of the target when the mapping keeps it, then the
    /// target taken relative to the link's directory.
    pub fn hard_link_candidate_paths(
        &mut self,
        out_path: &Vec<String>,
        target: &str,
        mapped: Option<Vec<String>>,
    ) -> (r: Result<Vec<Vec<String>>, ArchiveError>)
        ensures
            (final(self).model(), r is Ok) == step(
                old(self).model(),
                Event::HardLinkCandidates { out: out_path.deep_view(), target: target@ },
            ),
            final(self).same_records(old(self)),
            old(self).failed ==> r == Err::<Vec<Vec<String>>, ArchiveError>(ArchiveError::Aborted),
            !old(self).failed ==> match link_target_error(target@) {
                Some(e) => r == Err::<Vec<Vec<String>>, ArchiveError>(e),
                None => match link_candidate_of(out_path.deep_view(), target@) {
                    None => r == Err::<Vec<Vec<String>>, ArchiveError>(ArchiveError::NoParent),
                    Some(lit) => (r matches Ok(v) && paths_of(v@) == match mapped {
                        Some(m) => seq![m.deep_view(), lit],
                        None => seq![lit],
                    }),
                },
            },
            final(self).failed == (r is Err),
    {
        if self.failed {
            return Err(ArchiveError::Aborted);
        }
        if let Err(e) = validate_rel_link_target(target) {
            self.failed = true;
            return Err(e);
        }
        let literal = match resolve_relative_symlink_target(out_path, target) {
            Ok(p) => p,
            Err(e) => {
                self.failed = true;
                return Err(e);
            },
        };
        let mut candidates: Vec<Vec<String>> = Vec::new();
        let ghost lit = literal.deep_view();
        let ghost m = mapped;
        match mapped {
            Some(p) => {
                candidates.push(p);
            },
            None => {},
        }
        candidates.push(literal);
        proof {
            match m {
                Some(mp) => {
                    assert(paths_of(candidates@) =~= seq![mp.deep_view(), lit]);
                },
                None => {
                    assert(paths_of(candidates@) =~= seq![lit]);
                },
            }
        }
        Ok(candidates)
    }

    fn candidates_within(&self, candidates: &Vec<Vec<String>>) -> (r: bool)
        ensures
            r == all_within(self.root.deep_view(), paths_of(candidates@)),
    {
        let ghost cs = paths_of(candidates@);
        let mut k: usize = 0;
        while k < candidates.len()
            invariant
                k <= candidates.len(),
                cs == paths_of(candidates@),
                forall|j: int| 0 <= j < k ==> is_prefix(self.root.deep_view(), #[trigger] cs[j]),
            decreases candidates.len() - k,
        {
            assert(cs[k as int] == candidates[k as int].deep_view());
            if !crate::resolve::path_starts_with(&candidates[k], &self.root) {
                return false;
            }
            k = k + 1;
        }
        true
    }

    fn was_written(&self, path: &Vec<String>) -> (r: bool)
        ensures
            r == self.written().contains(path.deep_view()),
    {
        let ghost ws = self.written();
        let mut i: usize = 0;
        while i < self.extracted.len()
            invariant
                i <= self.extracted.len(),
                ws == self.written(),
                forall|j: int| 0 <= j < i ==> ws[j] != path.deep_view(),
            decreases self.extracted.len() - i,
        {
            if segments_equal(&self.extracted[i], path) {
                assert(ws[i as int] == path.deep_view());
                return true;
            }
            i = i + 1;
        }
        false
    }

    /// Report a hard link created at `out_path`; later links may name it.
    pub fn finish_hard_link(&mut self, out_path: Vec<String>) -> (r: Result<(), ArchiveError>)
        ensures
            (final(self).model(), r is Ok) == step(
                old(self).model(),
                Event::HardLinkDone { path: out_path.deep_view() },
            ),
            final(self).root == old(self).root,
            final(self).pending@.len() == old(self).pending@.len(),
            final(self).failed == old(self).failed,
            old(self).failed ==> r == Err::<(), ArchiveError>(ArchiveError::Aborted)
                && final(self).written() == old(self).written(),
            !old(self).failed ==> r is Ok && final(self).written() == old(self).written().push(
                out_path.deep_view(),
            ),
    {
        if self.failed {
            return Err(ArchiveError::Aborted);
        }
        self.record(out_path);
        Ok(())
    }

    /// Queue a symlink for creation at the end. Its target must be a relative
    /// path, and where it resolves to must stay under the root.
    pub fn queue_symlink(
        &mut self,
        out_path: Vec<String>,
        target: String,
        resolved_target: Vec<String>,
    ) -> (r: Result<(), ArchiveError>)
        ensures
            (final(self).model(), r is Ok) == step(
                old(self).model(),
                Event::Symlink { target: target@, resolved: resolved_target.deep_view() },
            ),
            final(self).root == old(self).root,
            final(self).written() == old(self).written(),
            old(self).failed ==> r == Err::<(), ArchiveError>(ArchiveError::Aborted),
            !old(self).failed ==> match link_target_error(target@) {
                Some(e) => r == Err::<(), ArchiveError>(e),
                None => if is_prefix(old(self).root.deep_view(), resolved_target.deep_view()) {
                    r is Ok
                } else {
                    r == Err::<(), ArchiveError>(ArchiveError::EscapesDestination)
                },
            },
            r is Ok ==> final(self).pending@.len() == old(self).pending@.len() + 1,
            r is Err ==> final(self).pending@.len() == old(self).pending@.len(),
            final(self).failed == (r is Err),
    {
        if self.failed {
            return Err(ArchiveError::Aborted);
        }
        match validate_rel_link_target(target.as_str()) {
            Err(e) => {
                self.failed = true;
                return Err(e);
            },
            Ok(()) => {},
        }
        let within = crate::resolve::path_starts_with(&resolved_target, &self.root);
        if !within {
            self.failed = true;
            return Err(ArchiveError::EscapesDestination);
        }
        self.pending.push(QueuedSymlink { out_path, target, resolved_target });
        Ok(())
    }

    /// Record a filesystem failure reported by the caller.
    pub fn record_failure(&mut self)
        ensures
            (final(self).model(), false) == step(old(self).model(), Event::Failure),
            final(self).same_records(old(self)),
            final(self).failed,
    {
        self.failed = true;
    }

    /// End the extraction: the queued symlinks to create, or the failure.
    pub fn finish(&mut self) -> (r: Result<Vec<QueuedSymlink>, ArchiveError>)
        ensures
            (final(self).model(), r is Ok) == step(old(self).model(), Event::Finish),
            final(self).root == old(self).root,
            final(self).failed == old(self).failed,
            old(self).failed ==> r is Err,
            !old(self).failed ==> (r matches Ok(v) && v@ == old(self).pending@),
    {
        if self.failed {
            return Err(ArchiveError::Aborted);
        }
        let mut pending: Vec<QueuedSymlink> = Vec::new();
        core::mem::swap(&mut pending, &mut self.pending);
        Ok(pending)
    }
}

fn segments_equal(a: &Vec<String>, b: &Vec<String>) -> (r: bool)
    ensures
        r == (a.deep_view() == b.deep_view()),
{
    if a.len() != b.len() {
        assert(a.deep_view().len() != b.deep_view().len());
        return false;
    }
    let mut i: usize = 0;
    while i < a.len()
        invariant
            a.len() == b.len(),
            i <= a.len(),
            forall|j: int| 0 <= j < i ==> a[j]@ == b[j]@,
        decreases a.len() - i,
    {
        if !(a[i] == b[i]) {
            assert(a.deep_view()[i as int] != b.deep_view()[i as int]);
            return false;
        }
        i = i + 1;
    }
    assert(a.deep_view() =~= b.deep_view());
    true
}

} // verus!
