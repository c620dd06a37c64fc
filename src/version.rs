//! Reading release version numbers such as `v4.14.6`.
use vstd::prelude::*;
use vstd::string::*;

use crate::component::ComponentId;

verus! {

/// The pieces of `s` between occurrences of `d`, left to right.
pub open spec fn split_on(s: Seq<char>, d: char) -> Seq<Seq<char>>
    decreases s.len(),
{
    if s.len() == 0 {
        seq![Seq::<char>::empty()]
    } else {
        let prev = split_on(s.drop_last(), d);
        if s.last() == d {
            prev.push(Seq::<char>::empty())
        } else {
            prev.update(prev.len() - 1, prev.last().push(s.last()))
        }
    }
}

pub open spec fn is_digit(c: char) -> bool {
    '0' <= c && c <= '9'
}

/// The value of a run of decimal digits.
pub open spec fn digits_value(s: Seq<char>) -> nat
    decreases s.len(),
{
    if s.len() == 0 {
        0
    } else {
        digits_value(s.drop_last()) * 10 + ((s.last() as u32) - ('0' as u32)) as nat
    }
}

/// What `str::parse::<u32>` gives: an optional `+` followed by at least one
/// digit, with a value that fits.
pub open spec fn parse_u32_of(s: Seq<char>) -> Option<u32> {
    parse_digits(without_plus(s))
}

/// The text without one leading `+`.
pub open spec fn without_plus(s: Seq<char>) -> Seq<char> {
    if s.len() > 0 && s[0] == '+' {
        s.drop_first()
    } else {
        s
    }
}

/// The value of a non-empty run of digits that fits in 32 bits.
pub open spec fn parse_digits(d: Seq<char>) -> Option<u32> {
    if d.len() > 0 && (forall|k: int| 0 <= k < d.len() ==> is_digit(d[k])) && digits_value(d)
        <= u32::MAX {
        Some(digits_value(d) as u32)
    } else {
        None
    }
}

/// The numbers among the pieces, in order; pieces that are not numbers drop out.
pub open spec fn numbers_of(ps: Seq<Seq<char>>) -> Seq<u32>
    decreases ps.len(),
{
    if ps.len() == 0 {
        seq![]
    } else {
        let r = numbers_of(ps.drop_last());
        match parse_u32_of(ps.last()) {
            Some(n) => r.push(n),
            None => r,
        }
    }
}

/// The version text without one leading `v`.
pub open spec fn without_v(s: Seq<char>) -> Seq<char> {
    if s.len() > 0 && s[0] == 'v' {
        s.drop_first()
    } else {
        s
    }
}

/// Whether the numbers of a version are at most 4.14.6, compared as far as
/// they go; a version with no number is not.
pub open spec fn at_most_4_14_6(p: Seq<u32>) -> bool {
    if p.len() >= 3 {
        p[0] < 4 || (p[0] == 4 && (p[1] < 14 || (p[1] == 14 && p[2] <= 6)))
    } else if p.len() == 2 {
        p[0] < 4 || (p[0] == 4 && p[1] <= 14)
    } else if p.len() == 1 {
        p[0] <= 4
    } else {
        false
    }
}

pub open spec fn needs_python310(version: Seq<char>) -> bool {
    at_most_4_14_6(numbers_of(split_on(without_v(version), '.')))
}

/// Parse `s[start..end]` as `str::parse::<u32>` does.
fn parse_u32_range(s: &str, start: usize, end: usize) -> (r: Option<u32>)
    requires
        start <= end <= s@.len(),
    ensures
        r == parse_u32_of(s@.subrange(start as int, end as int)),
{
    let ghost t = s@.subrange(start as int, end as int);
    let mut i = start;
    if start < end && s.get_char(start) == '+' {
        i = start + 1;
    }
    let ghost d = s@.subrange(i as int, end as int);
    assert(d == without_plus(t)) by {
        if t.len() > 0 && t[0] == '+' {
            assert(t.drop_first() =~= d);
        } else {
            assert(t =~= d);
        }
    }
    if i == end {
        return None;
    }
    let first = i;
    let mut value: u64 = 0;
    let mut over = false;
    assert(d.take(0) =~= Seq::<char>::empty());
    while i < end
        invariant
            first <= i <= end <= s@.len(),
            d == s@.subrange(first as int, end as int),
            t == s@.subrange(start as int, end as int),
            d == without_plus(t),
            forall|k: int| 0 <= k < i - first ==> is_digit(d[k]),
            !over ==> value as nat == digits_value(d.take(i - first)) && value <= u32::MAX,
            over ==> digits_value(d.take(i - first)) > u32::MAX,
        decreases end - i,
    {
        let c = s.get_char(i);
        if !('0' <= c && c <= '9') {
            assert(d[i - first] == c);
            assert(!is_digit(d[i - first]));
            assert(!(forall|k: int| 0 <= k < d.len() ==> is_digit(d[k])));
            assert(parse_u32_of(t) is None);
            return None;
        }
        proof {
            assert(d.take(i - first + 1).drop_last() =~= d.take(i - first));
            assert(d.take(i - first + 1).last() == c);
        }
        if !over {
            let digit = ((c as u32) - ('0' as u32)) as u64;
            value = value * 10 + digit;
            if value > 4294967295u64 {
                over = true;
            }
        }
        i = i + 1;
    }
    assert(d.take(end - first) =~= d);
    if over {
        None
    } else {
        Some(value as u32)
    }
}

/// The numbers of the `.`-separated pieces of `s[start..]`.
fn version_numbers(s: &str, start: usize) -> (r: Vec<u32>)
    requires
        start <= s@.len(),
    ensures
        r@ == numbers_of(split_on(s@.subrange(start as int, s@.len() as int), '.')),
{
    let n = s.unicode_len();
    let ghost t = s@.subrange(start as int, n as int);
    let mut out: Vec<u32> = Vec::new();
    let mut piece_start: usize = start;
    let mut i: usize = start;
    let ghost mut done: Seq<Seq<char>> = seq![];
    assert(t.take(0) =~= Seq::<char>::empty());
    assert(s@.subrange(start as int, start as int) =~= Seq::<char>::empty());
    while i < n
        invariant
            n == s@.len(),
            start <= piece_start <= i <= n,
            t == s@.subrange(start as int, n as int),
            split_on(t.take(i - start), '.') == done.push(
                s@.subrange(piece_start as int, i as int),
            ),
            out@ == numbers_of(done),
        decreases n - i,
    {
        let c = s.get_char(i);
        proof {
            let k = i - start;
            assert(t.take(k + 1).drop_last() =~= t.take(k));
            assert(t.take(k + 1).last() == c);
            assert(s@.subrange(piece_start as int, i + 1) =~= s@.subrange(
                piece_start as int,
                i as int,
            ).push(c));
        }
        if c == '.' {
            let parsed = parse_u32_range(s, piece_start, i);
            proof {
                let p = s@.subrange(piece_start as int, i as int);
                assert(done.push(p).drop_last() =~= done);
            }
            match parsed {
                Some(v) => out.push(v),
                None => {},
            }
            proof {
                done = done.push(s@.subrange(piece_start as int, i as int));
                assert(s@.subrange(i + 1, i + 1) =~= Seq::<char>::empty());
            }
            piece_start = i + 1;
        } else {
            proof {
                let prev = done.push(s@.subrange(piece_start as int, i as int));
                assert(prev.update(prev.len() - 1, prev.last().push(c)) =~= done.push(
                    s@.subrange(piece_start as int, i + 1),
                ));
            }
        }
        i = i + 1;
    }
    assert(t.take(n - start) =~= t);
    let parsed = parse_u32_range(s, piece_start, n);
    proof {
        let p = s@.subrange(piece_start as int, n as int);
        assert(done.push(p).drop_last() =~= done);
    }
    match parsed {
        Some(v) => out.push(v),
        None => {},
    }
    out
}

/// Whether a release needs Python 3.10: its version is 4.14.6 or earlier.
pub fn requires_python310(version: &str) -> (r: bool)
    ensures
        r == needs_python310(version@),
{
    let n = version.unicode_len();
    let start: usize = if n > 0 && version.get_char(0) == 'v' {
        1
    } else {
        0
    };
    assert(version@.subrange(start as int, n as int) =~= without_v(version@));
    let p = version_numbers(version, start);
    if p.len() >= 3 {
        p[0] < 4 || (p[0] == 4 && (p[1] < 14 || (p[1] == 14 && p[2] <= 6)))
    } else if p.len() == 2 {
        p[0] < 4 || (p[0] == 4 && p[1] <= 14)
    } else if p.len() == 1 {
        p[0] <= 4
    } else {
        false
    }
}

/// The component a release runs on.
pub fn required_component_for_version(version: &str) -> (r: ComponentId)
    ensures
        r == (if needs_python310(version@) {
            ComponentId::Python310
        } else {
            ComponentId::Python312
        }),
{
    if requires_python310(version) {
        ComponentId::Python310
    } else {
        ComponentId::Python312
    }
}

} // verus!
