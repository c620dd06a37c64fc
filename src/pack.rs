//! Naming the entries of an archive being created, and the round trip from
//! packing to flatten-extraction.
use vstd::prelude::*;
use vstd::string::*;

use crate::entry_path::{
    dot, dot_dot, has_drive_prefix, is_sep, is_skipped, kept, pieces, rel_path_of,
    starts_at_root,
};
use crate::top_dir::{all_share_first, any_nested, common_top, flatten_target, parsed_paths};

verus! {

/// Segments joined by `/`.
pub open spec fn joined(segs: Seq<Seq<char>>) -> Seq<char>
    decreases segs.len(),
{
    if segs.len() == 0 {
        seq![]
    } else if segs.len() == 1 {
        segs[0]
    } else {
        segs[0] + seq!['/'] + joined(segs.drop_first())
    }
}

/// A name that stands for itself in a path: non-empty, not `.` or `..`, no separator.
pub open spec fn plain_name(s: Seq<char>) -> bool {
    &&& s.len() > 0
    &&& s != dot()
    &&& s != dot_dot()
    &&& forall|k: int| 0 <= k < s.len() ==> !is_sep(s[k])
}

pub open spec fn all_plain(segs: Seq<Seq<char>>) -> bool {
    forall|i: int| 0 <= i < segs.len() ==> plain_name(segs[i])
}

/// The name under which a file at `relative` (below the packed directory) is
/// stored: `prefix/relative`.
pub open spec fn entry_name_of(prefix: Seq<char>, relative: Seq<Seq<char>>) -> Seq<char> {
    joined(seq![prefix] + relative)
}

proof fn lemma_joined_push(s: Seq<Seq<char>>, x: Seq<char>)
    requires
        s.len() >= 1,
    ensures
        joined(s.push(x)) == joined(s) + seq!['/'] + x,
    decreases s.len(),
{
    if s.len() == 1 {
        assert(s.push(x).drop_first() =~= seq![x]);
        assert(joined(seq![x]) == x);
        assert(s.push(x)[0] == s[0]);
        assert(joined(s.push(x)) =~= joined(s) + seq!['/'] + x);
    } else {
        assert(s.push(x)[0] == s[0]);
        assert(s.push(x).drop_first() =~= s.drop_first().push(x));
        lemma_joined_push(s.drop_first(), x);
        assert(joined(s.push(x)) =~= joined(s) + seq!['/'] + x);
    }
}

/// The archive entry name of a relative path under `prefix`.
pub fn archive_entry_name(prefix: &str, relative: &Vec<String>) -> (r: String)
    ensures
        r@ == entry_name_of(prefix@, relative.deep_view()),
{
    let ghost rel = relative.deep_view();
    let mut out = String::from_str(prefix);
    let mut i: usize = 0;
    assert(seq![prefix@] + rel.take(0) =~= seq![prefix@]);
    while i < relative.len()
        invariant
            i <= relative.len(),
            rel == relative.deep_view(),
            out@ == joined(seq![prefix@] + rel.take(i as int)),
        decreases relative.len() - i,
    {
        proof {
            assert(seq![prefix@] + rel.take(i + 1) =~= (seq![prefix@] + rel.take(i as int)).push(
                relative[i as int]@,
            ));
            lemma_joined_push(seq![prefix@] + rel.take(i as int), relative[i as int]@);
            reveal_strlit("/");
        }
        out = out.concat("/").concat(relative[i].as_str());
        i = i + 1;
    }
    assert(rel.take(relative.len() as int) =~= rel);
    out
}

/// What packing does with one item of the source tree.
#[derive(Debug, Clone, Copy, PartialEq, Eq, Structural)]
pub enum PackAction {
    /// Leave it out: the packed directory itself, or neither file nor directory.
    Skip,
    /// Add a directory entry.
    Directory,
    /// Add a file entry with its contents.
    File,
    /// Stop packing: symbolic links are not packed, neither followed nor dropped.
    Refuse,
}

/// Decide what to do with an item met while walking the tree to pack.
pub fn pack_action(is_root: bool, is_dir: bool, is_file: bool, is_symlink: bool) -> (r: PackAction)
    ensures
        is_symlink ==> r == PackAction::Refuse,
        !is_symlink && is_dir ==> r == (if is_root {
            PackAction::Skip
        } else {
            PackAction::Directory
        }),
        !is_symlink && !is_dir && is_file ==> r == PackAction::File,
        !is_symlink && !is_dir && !is_file ==> r == PackAction::Skip,
{
    if is_symlink {
        PackAction::Refuse
    } else if is_dir {
        if is_root {
            PackAction::Skip
        } else {
            PackAction::Directory
        }
    } else if is_file {
        PackAction::File
    } else {
        PackAction::Skip
    }
}

proof fn lemma_pieces_concat(a: Seq<char>, b: Seq<char>)
    ensures
        pieces(a + seq!['/'] + b) == pieces(a) + pieces(b),
    decreases b.len(),
{
    let s = a + seq!['/'] + b;
    if b.len() == 0 {
        assert(s =~= a.push('/'));
        assert(s.drop_last() =~= a);
        assert(pieces(a) + pieces(b) =~= pieces(a).push(Seq::<char>::empty()));
    } else {
        let b2 = b.drop_last();
        assert(s.drop_last() =~= a + seq!['/'] + b2);
        lemma_pieces_concat(a, b2);
        crate::entry_path::lemma_pieces_nonempty(b2);
        crate::entry_path::lemma_pieces_nonempty(a);
        let p = pieces(a) + pieces(b2);
        assert(b.drop_last() == b2);
        if is_sep(b.last()) {
            assert(pieces(s) =~= pieces(a) + pieces(b));
        } else {
            assert(p.last() == pieces(b2).last());
            assert(p.update(p.len() - 1, p.last().push(b.last())) =~= pieces(a) + pieces(
                b2,
            ).update(pieces(b2).len() - 1, pieces(b2).last().push(b.last())));
        }
    }
}

proof fn lemma_pieces_plain(w: Seq<char>)
    requires
        forall|k: int| 0 <= k < w.len() ==> !is_sep(w[k]),
    ensures
        pieces(w) == seq![w],
    decreases w.len(),
{
    if w.len() > 0 {
        lemma_pieces_plain(w.drop_last());
        assert(w.drop_last().push(w.last()) =~= w);
        assert(seq![w.drop_last()].update(0, w.drop_last().push(w.last())) =~= seq![w]);
    } else {
        assert(w =~= Seq::<char>::empty());
    }
}

proof fn lemma_pieces_joined(segs: Seq<Seq<char>>)
    requires
        segs.len() > 0,
        all_plain(segs),
    ensures
        pieces(joined(segs)) == segs,
    decreases segs.len(),
{
    lemma_pieces_plain(segs[0]);
    if segs.len() == 1 {
        assert(seq![segs[0]] =~= segs);
    } else {
        let rest = segs.drop_first();
        lemma_pieces_joined(rest);
        lemma_pieces_concat(segs[0], joined(rest));
        assert(seq![segs[0]] + rest =~= segs);
    }
}

proof fn lemma_kept_plain(segs: Seq<Seq<char>>)
    requires
        all_plain(segs),
    ensures
        kept(segs) == segs,
        !segs.contains(dot_dot()),
    decreases segs.len(),
{
    if segs.len() > 0 {
        lemma_kept_plain(segs.drop_last());
        assert(!is_skipped(segs.last()));
        assert(segs.drop_last().push(segs.last()) =~= segs);
    }
}

proof fn lemma_entry_name_parses(prefix: Seq<char>, rel: Seq<Seq<char>>)
    requires
        plain_name(prefix),
        !has_drive_prefix(prefix),
        all_plain(rel),
    ensures
        rel_path_of(entry_name_of(prefix, rel)) == Some(seq![prefix] + rel),
{
    let segs = seq![prefix] + rel;
    assert(segs[0] == prefix);
    assert(all_plain(segs));
    lemma_pieces_joined(segs);
    lemma_kept_plain(segs);
    let name = joined(segs);
    if segs.len() > 1 {
        assert(name == prefix + seq!['/'] + joined(segs.drop_first()));
        assert(name[0] == prefix[0]);
        if prefix.len() >= 2 {
            assert(name[1] == prefix[1]);
        } else {
            assert(name[1] == '/');
        }
    } else {
        assert(name == prefix);
    }
    assert(!starts_at_root(name));
    assert(!has_drive_prefix(name));
}

/// Names and relative paths that packing produced: entry `i` is `prefix/rels[i]`.
pub open spec fn packed(prefix: Seq<char>, rels: Seq<Seq<Seq<char>>>, names: Seq<Seq<char>>) -> bool {
    &&& names.len() == rels.len()
    &&& forall|i: int| 0 <= i < names.len() ==> names[i] == entry_name_of(prefix, rels[i])
}

proof fn lemma_parsed_packed(prefix: Seq<char>, rels: Seq<Seq<Seq<char>>>, names: Seq<Seq<char>>)
    requires
        plain_name(prefix),
        !has_drive_prefix(prefix),
        packed(prefix, rels, names),
        forall|i: int| 0 <= i < rels.len() ==> all_plain(rels[i]),
    ensures
        parsed_paths(names).len() == names.len(),
        forall|i: int| 0 <= i < names.len() ==> parsed_paths(names)[i] == seq![prefix] + rels[i],
    decreases names.len(),
{
    if names.len() > 0 {
        let n = names.len() - 1;
        lemma_parsed_packed(prefix, rels.drop_last(), names.drop_last());
        lemma_entry_name_parses(prefix, rels[n]);
        let prev = parsed_paths(names.drop_last());
        assert(forall|i: int| 0 <= i < n ==> prev.push(seq![prefix] + rels[n])[i] == prev[i]);
    }
}

/// Packing a tree under `prefix` and flatten-extracting the result into
/// `dest` puts every packed relative path back at `dest/relative`: the
/// detected top directory is `prefix`, and stripping it gives the path back.
pub proof fn lemma_pack_then_flatten_round_trip(
    prefix: Seq<char>,
    rels: Seq<Seq<Seq<char>>>,
    names: Seq<Seq<char>>,
    dest: Seq<Seq<char>>,
)
    requires
        plain_name(prefix),
        !has_drive_prefix(prefix),
        rels.len() > 0,
        forall|i: int| 0 <= i < rels.len() ==> rels[i].len() > 0 && all_plain(rels[i]),
        packed(prefix, rels, names),
    ensures
        common_top(parsed_paths(names)) == Some(prefix),
        forall|i: int|
            0 <= i < names.len() ==> flatten_target(names[i], dest, Some(prefix)) == Some(
                dest + rels[i],
            ),
{
    lemma_parsed_packed(prefix, rels, names);
    let ps = parsed_paths(names);
    assert(ps[0] == seq![prefix] + rels[0]);
    assert(all_share_first(ps));
    assert(ps[0].len() > 1);
    assert(any_nested(ps));
    assert forall|i: int| 0 <= i < names.len() implies flatten_target(
        names[i],
        dest,
        Some(prefix),
    ) == Some(dest + rels[i]) by {
        lemma_entry_name_parses(prefix, rels[i]);
        assert((seq![prefix] + rels[i]).drop_first() =~= rels[i]);
    }
}

} // verus!
