//! Deciding whether a candidate output path stays inside a destination root.
//!
//! Paths here are absolute, as segment lists below the filesystem root. The
//! caller canonicalizes (resolves symlinks) on disk; this module walks back to
//! the longest existing prefix, re-appends what did not exist yet, and checks
//! that the result lies under the canonical root.
use vstd::prelude::*;

use crate::entry_path::{dot_dot, is_skipped};
use crate::error::ArchiveError;

verus! {

/// Lexical normalization: empty and `.` segments vanish, `..` removes the
/// previous segment (and stays at the root when there is none).
pub open spec fn lexical(p: Seq<Seq<char>>) -> Seq<Seq<char>>
    decreases p.len(),
{
    if p.len() == 0 {
        seq![]
    } else {
        let r = lexical(p.drop_last());
        let s = p.last();
        if is_skipped(s) {
            r
        } else if s == dot_dot() {
            if r.len() > 0 {
                r.drop_last()
            } else {
                r
            }
        } else {
            r.push(s)
        }
    }
}

/// `base` is a leading part of `p`, segment by segment.
pub open spec fn is_prefix(base: Seq<Seq<char>>, p: Seq<Seq<char>>) -> bool {
    base.len() <= p.len() && p.take(base.len() as int) == base
}

/// A sequence in reverse order.
pub open spec fn reversed(s: Seq<Seq<char>>) -> Seq<Seq<char>>
    decreases s.len(),
{
    if s.len() == 0 {
        seq![]
    } else {
        seq![s.last()] + reversed(s.drop_last())
    }
}

pub(crate) fn copy_segments(v: &Vec<String>) -> (r: Vec<String>)
    ensures
        r.deep_view() == v.deep_view(),
{
    let mut out: Vec<String> = Vec::new();
    let mut i: usize = 0;
    while i < v.len()
        invariant
            i <= v.len(),
            out.len() == i,
            forall|j: int| 0 <= j < i ==> out[j]@ == v[j]@,
        decreases v.len() - i,
    {
        out.push(v[i].clone());
        i = i + 1;
    }
    assert(out.deep_view() =~= v.deep_view());
    out
}

/// Normalize a path lexically.
pub fn lexical_normalize(path: &Vec<String>) -> (r: Vec<String>)
    ensures
        r.deep_view() == lexical(path.deep_view()),
{
    let ghost p = path.deep_view();
    let mut out: Vec<String> = Vec::new();
    let mut i: usize = 0;
    while i < path.len()
        invariant
            i <= path.len(),
            p == path.deep_view(),
            out.deep_view() == lexical(p.take(i as int)),
        decreases path.len() - i,
    {
        let seg = &path[i];
        proof {
            assert(p.take(i + 1).drop_last() =~= p.take(i as int));
            assert(p.take(i + 1).last() == seg@);
        }
        let s = seg.as_str();
        let n = s.unicode_len();
        let is_dot = n == 1 && s.get_char(0) == '.';
        let is_dd = n == 2 && s.get_char(0) == '.' && s.get_char(1) == '.';
        proof {
            if n == 1 {
                assert(is_dot == (seg@ =~= seq!['.']));
            }
            if n == 2 {
                assert(is_dd == (seg@ =~= dot_dot()));
            }
            assert(n != 2 ==> seg@ != dot_dot());
        }
        if n == 0 || is_dot {
        } else if is_dd {
            if out.len() > 0 {
                let ghost before = out.deep_view();
                out.pop();
                assert(out.deep_view() =~= before.drop_last());
            }
        } else {
            out.push(seg.clone());
            assert(out.deep_view() =~= lexical(p.take(i as int)).push(seg@));
        }
        i = i + 1;
    }
    assert(p.take(path.len() as int) =~= p);
    out
}

/// Whether `path` lies at or below `base`.
pub fn path_starts_with(path: &Vec<String>, base: &Vec<String>) -> (r: bool)
    ensures
        r == is_prefix(base.deep_view(), path.deep_view()),
{
    if base.len() > path.len() {
        return false;
    }
    let mut i: usize = 0;
    while i < base.len()
        invariant
            base.len() <= path.len(),
            i <= base.len(),
            forall|j: int| 0 <= j < i ==> path[j]@ == base[j]@,
        decreases base.len() - i,
    {
        if !(path[i] == base[i]) {
            assert(path.deep_view().take(base.len() as int)[i as int] != base.deep_view()[i as int]);
            return false;
        }
        i = i + 1;
    }
    assert(path.deep_view().take(base.len() as int) =~= base.deep_view());
    true
}

/// Accept a canonical candidate only when it lies under the canonical root.
pub fn check_within(canonical_base: &Vec<String>, canonical_candidate: Vec<String>) -> (r: Result<
    Vec<String>,
    ArchiveError,
>)
    ensures
        is_prefix(canonical_base.deep_view(), canonical_candidate.deep_view()) ==> r == Ok::<
            Vec<String>,
            ArchiveError,
        >(canonical_candidate),
        !is_prefix(canonical_base.deep_view(), canonical_candidate.deep_view()) ==> r == Err::<
            Vec<String>,
            ArchiveError,
        >(ArchiveError::EscapesDestination),
{
    if path_starts_with(&canonical_candidate, canonical_base) {
        Ok(canonical_candidate)
    } else {
        Err(ArchiveError::EscapesDestination)
    }
}

/// What the filesystem said when asked to canonicalize the current prefix.
pub enum Probe {
    /// The prefix exists; this is its canonical form.
    Resolved(Vec<String>),
    /// The prefix does not exist.
    NotFound,
    /// Any other failure.
    Failed,
}

/// What the walk asks for next.
pub enum WalkStep {
    /// The canonical path of the whole target.
    Done(Vec<String>),
    /// Canonicalize the (now shorter) current prefix again.
    Retry,
    /// Canonicalization cannot succeed.
    Fail(ArchiveError),
}

/// A walk from a lexically normalized path back to its longest existing prefix.
/// `suffix` holds the segments taken off, most recent last.
pub struct PrefixWalk {
    pub current: Vec<String>,
    pub suffix: Vec<String>,
}

impl PrefixWalk {
    /// The path the walk resolves: the current prefix followed by what was taken off.
    pub open spec fn target(&self) -> Seq<Seq<char>> {
        self.current.deep_view() + reversed(self.suffix.deep_view())
    }

    /// Start at the lexical normal form of `path`.
    pub fn start(path: &Vec<String>) -> (r: PrefixWalk)
        ensures
            r.current.deep_view() == lexical(path.deep_view()),
            r.suffix.len() == 0,
            r.target() == lexical(path.deep_view()),
    {
        let w = PrefixWalk { current: lexical_normalize(path), suffix: Vec::new() };
        assert(w.suffix.deep_view() =~= Seq::<Seq<char>>::empty());
        assert(w.target() =~= w.current.deep_view());
        w
    }

    /// Take in the answer for the current prefix.
    pub fn step(&mut self, probe: Probe) -> (r: WalkStep)
        ensures
            final(self).target() == old(self).target(),
            match probe {
                Probe::Resolved(c) => {
                    &&& r matches WalkStep::Done(done)
                    &&& done.deep_view() == c.deep_view() + reversed(old(self).suffix.deep_view())
                    &&& final(self).current.deep_view() == old(self).current.deep_view()
                },
                Probe::NotFound => if old(self).current.len() == 0 {
                    r == WalkStep::Fail(ArchiveError::ReachedRoot)
                        && final(self).current.deep_view() == old(self).current.deep_view()
                } else {
                    &&& r is Retry
                    &&& final(self).current.deep_view() == old(self).current.deep_view().drop_last()
                    &&& final(self).suffix.deep_view() == old(self).suffix.deep_view().push(
                        old(self).current.deep_view().last(),
                    )
                },
                Probe::Failed => r == WalkStep::Fail(ArchiveError::Filesystem)
                    && final(self).current.deep_view() == old(self).current.deep_view(),
            },
    {
        match probe {
            Probe::Resolved(canonical) => {
                let mut out = copy_segments(&canonical);
                let ghost suf = self.suffix.deep_view();
                let mut k: usize = self.suffix.len();
                while k > 0
                    invariant
                        k <= self.suffix.len(),
                        suf == self.suffix.deep_view(),
                        out.deep_view() == canonical.deep_view() + reversed(suf.skip(k as int)),
                    decreases k,
                {
                    k = k - 1;
                    proof {
                        let t = suf.skip(k as int);
                        assert(t.drop_last().len() >= 0);
                        assert(suf.skip(k + 1) =~= t.drop_first());
                        lemma_reversed_cons(t);
                    }
                    out.push(self.suffix[k].clone());
                    proof {
                        let t = suf.skip(k as int);
                        assert(t[0] == self.suffix[k as int]@);
                        assert(out.deep_view() =~= canonical.deep_view() + reversed(suf.skip(k + 1))
                            + seq![self.suffix[k as int]@]);
                    }
                }
                assert(suf.skip(0) =~= suf);
                WalkStep::Done(out)
            },
            Probe::NotFound => {
                if self.current.len() == 0 {
                    WalkStep::Fail(ArchiveError::ReachedRoot)
                } else {
                    let ghost before = *self;
                    let last = self.current.pop().unwrap();
                    self.suffix.push(last);
                    proof {
                        assert(self.current.deep_view() =~= before.current.deep_view().drop_last());
                        assert(self.suffix.deep_view() =~= before.suffix.deep_view().push(
                            before.current.deep_view().last(),
                        ));
                        lemma_reversed_push(before.suffix.deep_view(), before.current.deep_view().last());
                        assert(before.current.deep_view() =~= self.current.deep_view().push(
                            before.current.deep_view().last(),
                        ));
                        assert(self.target() =~= before.target());
                    }
                    WalkStep::Retry
                }
            },
            Probe::Failed => WalkStep::Fail(ArchiveError::Filesystem),
        }
    }
}

proof fn lemma_reversed_push(s: Seq<Seq<char>>, x: Seq<char>)
    ensures
        reversed(s.push(x)) == seq![x] + reversed(s),
{
    assert(s.push(x).drop_last() =~= s);
}

proof fn lemma_reversed_cons(t: Seq<Seq<char>>)
    requires
        t.len() > 0,
    ensures
        reversed(t) == reversed(t.drop_first()) + seq![t[0]],
    decreases t.len(),
{
    if t.len() == 1 {
        assert(t.drop_first() =~= Seq::<Seq<char>>::empty());
        assert(t.drop_last() =~= Seq::<Seq<char>>::empty());
        assert(reversed(t) =~= seq![t[0]]);
    } else {
        lemma_reversed_cons(t.drop_last());
        assert(t.drop_last().drop_first() =~= t.drop_first().drop_last());
        assert(t.drop_first().last() == t.last());
        assert(t.drop_last()[0] == t[0]);
        assert(reversed(t.drop_first()) == seq![t.drop_first().last()] + reversed(
            t.drop_first().drop_last(),
        ));
        assert(reversed(t) == seq![t.last()] + reversed(t.drop_last()));
        assert(reversed(t) =~= reversed(t.drop_first()) + seq![t[0]]);
    }
}

} // verus!
