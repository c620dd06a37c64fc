//! Turning the raw path of an archive entry into safe relative segments.
//!
//! A raw path may use `/` or `\` as separator. Its pieces are the runs of text
//! between separators; empty pieces and `.` are dropped, and a `..` piece makes
//! the whole path unsafe.
use vstd::prelude::*;
use vstd::string::*;

verus! {

pub open spec fn is_sep(c: char) -> bool {
    c == '/' || c == '\\'
}

/// The pieces of `s` between separators, left to right. Text with no
/// separator is a single piece; each separator starts a new (possibly empty) one.
pub open spec fn pieces(s: Seq<char>) -> Seq<Seq<char>>
    decreases s.len(),
{
    if s.len() == 0 {
        seq![Seq::<char>::empty()]
    } else {
        let prev = pieces(s.drop_last());
        if is_sep(s.last()) {
            prev.push(Seq::<char>::empty())
        } else {
            prev.update(prev.len() - 1, prev.last().push(s.last()))
        }
    }
}

pub open spec fn dot() -> Seq<char> {
    seq!['.']
}

pub open spec fn dot_dot() -> Seq<char> {
    seq!['.', '.']
}

/// A piece that names nothing: empty, or `.`.
pub open spec fn is_skipped(p: Seq<char>) -> bool {
    p.len() == 0 || p == dot()
}

/// The pieces that name something, in order.
pub open spec fn kept(ps: Seq<Seq<char>>) -> Seq<Seq<char>>
    decreases ps.len(),
{
    if ps.len() == 0 {
        seq![]
    } else {
        let r = kept(ps.drop_last());
        if is_skipped(ps.last()) {
            r
        } else {
            r.push(ps.last())
        }
    }
}

pub open spec fn is_ascii_alpha(c: char) -> bool {
    ('a' <= c && c <= 'z') || ('A' <= c && c <= 'Z')
}

/// `s` starts with a Windows drive designator such as `C:`.
pub open spec fn has_drive_prefix(s: Seq<char>) -> bool {
    s.len() >= 2 && s[1] == ':' && is_ascii_alpha(s[0])
}

/// `s` is empty or starts at the root (a leading separator).
pub open spec fn starts_at_root(s: Seq<char>) -> bool {
    s.len() == 0 || is_sep(s[0])
}

/// `s` starts with a separator.
pub open spec fn is_rooted(s: Seq<char>) -> bool {
    s.len() > 0 && is_sep(s[0])
}

/// The lenient reading of a raw path: its named pieces (possibly none), or
/// nothing when it is rooted, starts with a drive designator or has a `..`
/// piece.
pub open spec fn components_of(s: Seq<char>) -> Option<Seq<Seq<char>>> {
    if is_rooted(s) || has_drive_prefix(s) || pieces(s).contains(dot_dot()) {
        None
    } else {
        Some(kept(pieces(s)))
    }
}

/// The strict reading of a raw path: a non-empty relative path with no `..`,
/// no leading separator and no drive designator, or nothing.
pub open spec fn rel_path_of(s: Seq<char>) -> Option<Seq<Seq<char>>> {
    if starts_at_root(s) || has_drive_prefix(s) || pieces(s).contains(dot_dot()) || kept(
        pieces(s),
    ).len() == 0 {
        None
    } else {
        Some(kept(pieces(s)))
    }
}

/// The segments that an optional list of strings holds.
pub open spec fn segs_opt(r: Option<Vec<String>>) -> Option<Seq<Seq<char>>> {
    match r {
        Some(v) => Some(v.deep_view()),
        None => None,
    }
}

pub open spec fn slash_of(c: char) -> char {
    if c == '\\' {
        '/'
    } else {
        c
    }
}

pub(crate) proof fn lemma_pieces_nonempty(s: Seq<char>)
    ensures
        pieces(s).len() >= 1,
    decreases s.len(),
{
    if s.len() > 0 {
        lemma_pieces_nonempty(s.drop_last());
    }
}

proof fn lemma_push_contains(s: Seq<Seq<char>>, x: Seq<char>, y: Seq<char>)
    ensures
        s.push(x).contains(y) <==> (s.contains(y) || x == y),
{
    if s.push(x).contains(y) {
        let k = choose|k: int| 0 <= k < s.push(x).len() && s.push(x)[k] == y;
        if k < s.len() {
            assert(s[k] == y);
        }
    }
    if s.contains(y) {
        let k = choose|k: int| 0 <= k < s.len() && s[k] == y;
        assert(s.push(x)[k] == y);
    }
    if x == y {
        assert(s.push(x)[s.len() as int] == y);
    }
}

proof fn lemma_kept_push(ps: Seq<Seq<char>>, p: Seq<char>)
    ensures
        kept(ps.push(p)) == if is_skipped(p) {
            kept(ps)
        } else {
            kept(ps).push(p)
        },
{
    assert(ps.push(p).drop_last() =~= ps);
}

/// One step of the splitter: pieces of a longer prefix from those of a shorter one.
pub(crate) proof fn lemma_pieces_step(s: Seq<char>, i: int, start: int, done: Seq<Seq<char>>)
    requires
        0 <= start <= i < s.len(),
        pieces(s.take(i)) == done.push(s.subrange(start, i)),
    ensures
        is_sep(s[i]) ==> pieces(s.take(i + 1)) == done.push(s.subrange(start, i)).push(
            s.subrange(i + 1, i + 1),
        ),
        !is_sep(s[i]) ==> pieces(s.take(i + 1)) == done.push(s.subrange(start, i + 1)),
{
    assert(s.take(i + 1).drop_last() =~= s.take(i));
    assert(s.take(i + 1).last() == s[i]);
    assert(s.subrange(i + 1, i + 1) =~= Seq::<char>::empty());
    assert(s.subrange(start, i + 1) =~= s.subrange(start, i).push(s[i]));
    let prev = done.push(s.subrange(start, i));
    if !is_sep(s[i]) {
        assert(prev.update(prev.len() - 1, prev.last().push(s[i])) =~= done.push(
            s.subrange(start, i + 1),
        ));
    }
}

fn piece_is_dot(raw: &str, start: usize, end: usize) -> (r: bool)
    requires
        start <= end <= raw@.len(),
    ensures
        r == (raw@.subrange(start as int, end as int) == dot()),
{
    if end - start == 1 && raw.get_char(start) == '.' {
        assert(raw@.subrange(start as int, end as int) =~= dot());
        true
    } else {
        assert(raw@.subrange(start as int, end as int).len() == end - start);
        if end - start == 1 {
            assert(raw@.subrange(start as int, end as int)[0] == raw@[start as int]);
        }
        false
    }
}

fn piece_is_dot_dot(raw: &str, start: usize, end: usize) -> (r: bool)
    requires
        start <= end <= raw@.len(),
    ensures
        r == (raw@.subrange(start as int, end as int) == dot_dot()),
{
    if end - start == 2 && raw.get_char(start) == '.' && raw.get_char(start + 1) == '.' {
        assert(raw@.subrange(start as int, end as int) =~= dot_dot());
        true
    } else {
        assert(raw@.subrange(start as int, end as int).len() == end - start);
        if end - start == 2 {
            assert(raw@.subrange(start as int, end as int)[0] == raw@[start as int]);
            assert(raw@.subrange(start as int, end as int)[1] == raw@[start + 1]);
        }
        false
    }
}

/// Adds the piece `raw[start..end]` to `out` unless it names nothing.
fn keep_piece(raw: &str, start: usize, end: usize, out: &mut Vec<String>)
    requires
        start <= end <= raw@.len(),
    ensures
        final(out).deep_view() == if is_skipped(raw@.subrange(start as int, end as int)) {
            old(out).deep_view()
        } else {
            old(out).deep_view().push(raw@.subrange(start as int, end as int))
        },
{
    let is_dot = piece_is_dot(raw, start, end);
    if start < end && !is_dot {
        let piece = raw.substring_char(start, end).to_owned();
        out.push(piece);
        assert(final(out).deep_view() =~= old(out).deep_view().push(
            raw@.subrange(start as int, end as int),
        ));
    }
}

/// Splits a raw path into its named pieces; `None` when one of its pieces is `..`.
fn split_components(raw: &str) -> (r: Option<Vec<String>>)
    ensures
        segs_opt(r) == (if pieces(raw@).contains(dot_dot()) {
            None
        } else {
            Some(kept(pieces(raw@)))
        }),
{
    let n = raw.unicode_len();
    let mut out: Vec<String> = Vec::new();
    let mut start: usize = 0;
    let mut i: usize = 0;
    let mut bad = false;
    let ghost mut done: Seq<Seq<char>> = seq![];
    assert(raw@.take(0) =~= Seq::<char>::empty());
    assert(raw@.subrange(0, 0) =~= Seq::<char>::empty());
    while i < n
        invariant
            n == raw@.len(),
            start <= i <= n,
            pieces(raw@.take(i as int)) == done.push(raw@.subrange(start as int, i as int)),
            bad == done.contains(dot_dot()),
            !bad ==> out.deep_view() == kept(done),
        decreases n - i,
    {
        let c = raw.get_char(i);
        proof {
            lemma_pieces_step(raw@, i as int, start as int, done);
        }
        if c == '/' || c == '\\' {
            let is_dd = piece_is_dot_dot(raw, start, i);
            proof {
                lemma_push_contains(done, raw@.subrange(start as int, i as int), dot_dot());
                lemma_kept_push(done, raw@.subrange(start as int, i as int));
            }
            if is_dd {
                bad = true;
            } else if !bad {
                keep_piece(raw, start, i, &mut out);
            }
            proof {
                done = done.push(raw@.subrange(start as int, i as int));
            }
            start = i + 1;
        }
        i = i + 1;
    }
    assert(raw@.take(n as int) =~= raw@);
    proof {
        lemma_push_contains(done, raw@.subrange(start as int, n as int), dot_dot());
        lemma_kept_push(done, raw@.subrange(start as int, n as int));
    }
    let last_dd = piece_is_dot_dot(raw, start, n);
    if bad || last_dd {
        None
    } else {
        keep_piece(raw, start, n, &mut out);
        Some(out)
    }
}

/// Normalize an archive entry path into its named segments, or `None` when
/// it is rooted, drive-designated or has a `..` segment.
pub fn normalize_archive_components(raw_path: &str) -> (r: Option<Vec<String>>)
    ensures
        segs_opt(r) == components_of(raw_path@),
{
    let n = raw_path.unicode_len();
    if n > 0 {
        let c0 = raw_path.get_char(0);
        if c0 == '/' || c0 == '\\' {
            return None;
        }
    }
    if has_windows_drive_prefix(raw_path) {
        return None;
    }
    split_components(raw_path)
}

/// The path with every backslash turned into a forward slash.
pub fn normalize_entry_path(path: &str) -> (r: String)
    ensures
        r@ == path@.map_values(|c: char| slash_of(c)),
{
    let n = path.unicode_len();
    let mut out = String::new();
    let mut i: usize = 0;
    while i < n
        invariant
            n == path@.len(),
            i <= n,
            out@ == path@.take(i as int).map_values(|c: char| slash_of(c)),
        decreases n - i,
    {
        let c = path.get_char(i);
        if c == '\\' {
            out.append("/");
        } else {
            out.append(path.substring_char(i, i + 1));
        }
        proof {
            reveal_strlit("/");
            assert(path@.subrange(i as int, i + 1) =~= seq![c]);
            assert(path@.take(i + 1).map_values(|c: char| slash_of(c)) =~= path@.take(
                i as int,
            ).map_values(|c: char| slash_of(c)).push(slash_of(c)));
        }
        i = i + 1;
    }
    assert(path@.take(n as int) =~= path@);
    out
}

/// Whether `path` starts with a Windows drive designator (`C:`).
pub fn has_windows_drive_prefix(path: &str) -> (r: bool)
    ensures
        r == has_drive_prefix(path@),
{
    let n = path.unicode_len();
    if n < 2 {
        return false;
    }
    let c0 = path.get_char(0);
    let c1 = path.get_char(1);
    c1 == ':' && (('a' <= c0 && c0 <= 'z') || ('A' <= c0 && c0 <= 'Z'))
}

/// Convert an archive entry path to relative segments, rejecting empty,
/// rooted, drive-designated or traversing paths.
pub fn parse_entry_rel_path(raw: &str) -> (r: Option<Vec<String>>)
    ensures
        segs_opt(r) == rel_path_of(raw@),
{
    let n = raw.unicode_len();
    if n == 0 {
        return None;
    }
    let c0 = raw.get_char(0);
    if c0 == '/' || c0 == '\\' || has_windows_drive_prefix(raw) {
        return None;
    }
    match split_components(raw) {
        None => None,
        Some(v) => {
            if v.len() == 0 {
                None
            } else {
                Some(v)
            }
        },
    }
}

} // verus!
