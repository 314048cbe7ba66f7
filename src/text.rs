//! Character-level helpers over `Seq<char>`: whitespace trimming, splitting
//! on a separator, prefix and substring tests. Executable versions work on a
//! `Vec<char>` and a half-open index range into it.
use vstd::prelude::*;

verus! {

/// Unicode `White_Space`, the property that `char::is_whitespace` reports.
pub open spec fn is_white(c: char) -> bool {
    let u = c as u32;
    (0x9 <= u && u <= 0xd) || u == 0x20 || u == 0x85 || u == 0xa0 || u == 0x1680 || (0x2000 <= u
        && u <= 0x200a) || u == 0x2028 || u == 0x2029 || u == 0x202f || u == 0x205f || u == 0x3000
}

/// `s` without its leading whitespace.
pub open spec fn trim_start(s: Seq<char>) -> Seq<char>
    decreases s.len(),
{
    if s.len() > 0 && is_white(s[0]) {
        trim_start(s.drop_first())
    } else {
        s
    }
}

/// `s` without its trailing whitespace.
pub open spec fn trim_end(s: Seq<char>) -> Seq<char>
    decreases s.len(),
{
    if s.len() > 0 && is_white(s.last()) {
        trim_end(s.drop_last())
    } else {
        s
    }
}

/// `s` without leading and trailing whitespace, as `str::trim` gives it.
pub open spec fn trimmed(s: Seq<char>) -> Seq<char> {
    trim_end(trim_start(s))
}

/// The pieces of `s` between occurrences of `sep`, as `str::split` with a
/// `char` pattern yields them: always at least one piece, possibly empty.
pub open spec fn split_on(s: Seq<char>, sep: char) -> Seq<Seq<char>>
    decreases s.len(),
{
    if s.len() == 0 {
        seq![Seq::<char>::empty()]
    } else {
        let init = split_on(s.drop_last(), sep);
        if s.last() == sep {
            init.push(Seq::<char>::empty())
        } else {
            init.update(init.len() - 1, init.last().push(s.last()))
        }
    }
}

/// The part of `s` after the last `sep`, or all of `s` when it has none.
pub open spec fn after_last(s: Seq<char>, sep: char) -> Seq<char>
    decreases s.len(),
{
    if s.len() == 0 || s.last() == sep {
        Seq::<char>::empty()
    } else {
        after_last(s.drop_last(), sep).push(s.last())
    }
}

/// `pre` is a prefix of `s`.
pub open spec fn has_prefix(s: Seq<char>, pre: Seq<char>) -> bool {
    pre.len() <= s.len() && s.take(pre.len() as int) == pre
}

/// `pat` occurs somewhere in `s`.
pub open spec fn occurs_in(s: Seq<char>, pat: Seq<char>) -> bool {
    exists|i: int| 0 <= i && i + pat.len() <= s.len() && #[trigger] s.subrange(i, i + pat.len()) == pat
}

pub proof fn lemma_split_on_len(s: Seq<char>, sep: char)
    ensures
        split_on(s, sep).len() >= 1,
    decreases s.len(),
{
    if s.len() > 0 {
        lemma_split_on_len(s.drop_last(), sep);
    }
}

/// The characters of `s`, in order.
pub fn chars_of(s: &str) -> (r: Vec<char>)
    ensures
        r@ == s@,
{
    let mut out: Vec<char> = Vec::new();
    for c in it: s.chars()
        invariant
            out@ == it.seq().take(it.index() as int),
    {
        out.push(c);
    }
    out
}

/// Whether `c` is whitespace; the table of `char::is_whitespace`.
pub fn is_white_char(c: char) -> (r: bool)
    ensures
        r == is_white(c),
{
    let u = c as u32;
    (0x9 <= u && u <= 0xd) || u == 0x20 || u == 0x85 || u == 0xa0 || u == 0x1680 || (0x2000 <= u
        && u <= 0x200a) || u == 0x2028 || u == 0x2029 || u == 0x202f || u == 0x205f || u == 0x3000
}

/// The bounds of `cs[lo..hi]` with surrounding whitespace left out.
pub fn trim_range(cs: &Vec<char>, lo: usize, hi: usize) -> (r: (usize, usize))
    requires
        lo <= hi <= cs.len(),
    ensures
        lo <= r.0 <= r.1 <= hi,
        cs@.subrange(r.0 as int, r.1 as int) == trimmed(cs@.subrange(lo as int, hi as int)),
{
    let mut a = lo;
    while a < hi && is_white_char(cs[a])
        invariant
            lo <= a <= hi <= cs.len(),
            trim_start(cs@.subrange(lo as int, hi as int)) == trim_start(
                cs@.subrange(a as int, hi as int),
            ),
        decreases hi - a,
    {
        assert(cs@.subrange(a as int, hi as int).drop_first() =~= cs@.subrange(
            a + 1,
            hi as int,
        ));
        a = a + 1;
    }
    let mut b = hi;
    while b > a && is_white_char(cs[b - 1])
        invariant
            lo <= a <= b <= hi <= cs.len(),
            trim_end(cs@.subrange(a as int, hi as int)) == trim_end(
                cs@.subrange(a as int, b as int),
            ),
        decreases b - a,
    {
        assert(cs@.subrange(a as int, b as int).drop_last() =~= cs@.subrange(
            a as int,
            b - 1,
        ));
        b = b - 1;
    }
    (a, b)
}

/// The pieces of `cs[lo..hi]` between occurrences of `sep`, as index ranges.
pub fn split_range(cs: &Vec<char>, lo: usize, hi: usize, sep: char) -> (r: Vec<(usize, usize)>)
    requires
        lo <= hi <= cs.len(),
    ensures
        r.len() >= 1,
        forall|k: int| 0 <= k < r.len() ==> lo <= (#[trigger] r@[k]).0 <= r@[k].1 <= hi,
        r@.map_values(|p: (usize, usize)| cs@.subrange(p.0 as int, p.1 as int)) == split_on(
            cs@.subrange(lo as int, hi as int),
            sep,
        ),
{
    let mut done: Vec<(usize, usize)> = Vec::new();
    let mut start = lo;
    let mut i = lo;
    assert(cs@.subrange(lo as int, lo as int) =~= Seq::<char>::empty());
    assert(done@.map_values(|p: (usize, usize)| cs@.subrange(p.0 as int, p.1 as int)).push(
        cs@.subrange(lo as int, lo as int),
    ) =~= seq![Seq::<char>::empty()]);
    while i < hi
        invariant
            lo <= start <= i <= hi <= cs.len(),
            forall|k: int| 0 <= k < done.len() ==> lo <= (#[trigger] done@[k]).0 <= done@[k].1 <= hi,
            done@.map_values(|p: (usize, usize)| cs@.subrange(p.0 as int, p.1 as int)).push(
                cs@.subrange(start as int, i as int),
            ) == split_on(cs@.subrange(lo as int, i as int), sep),
        decreases hi - i,
    {
        let ghost prev = done@;
        assert(cs@.subrange(lo as int, i + 1).drop_last() =~= cs@.subrange(lo as int, i as int));
        if cs[i] == sep {
            done.push((start, i));
            assert(done@.map_values(|p: (usize, usize)| cs@.subrange(p.0 as int, p.1 as int))
                =~= prev.map_values(|p: (usize, usize)| cs@.subrange(p.0 as int, p.1 as int)).push(
                cs@.subrange(start as int, i as int),
            ));
            assert(cs@.subrange(i + 1, i + 1) =~= Seq::<char>::empty());
            start = i + 1;
        } else {
            assert(cs@.subrange(start as int, i as int).push(cs@[i as int]) =~= cs@.subrange(
                start as int,
                i + 1,
            ));
            assert(prev.map_values(|p: (usize, usize)| cs@.subrange(p.0 as int, p.1 as int)).push(
                cs@.subrange(start as int, i + 1),
            ) =~= split_on(cs@.subrange(lo as int, i + 1), sep));
        }
        i = i + 1;
    }
    let ghost prev = done@;
    done.push((start, hi));
    assert(done@.map_values(|p: (usize, usize)| cs@.subrange(p.0 as int, p.1 as int))
        =~= prev.map_values(|p: (usize, usize)| cs@.subrange(p.0 as int, p.1 as int)).push(
        cs@.subrange(start as int, hi as int),
    ));
    done
}

/// Whether `pre` is a prefix of `cs[lo..hi]`.
pub fn range_has_prefix(cs: &Vec<char>, lo: usize, hi: usize, pre: &Vec<char>) -> (r: bool)
    requires
        lo <= hi <= cs.len(),
    ensures
        r == has_prefix(cs@.subrange(lo as int, hi as int), pre@),
{
    if pre.len() > hi - lo {
        return false;
    }
    let mut k: usize = 0;
    while k < pre.len()
        invariant
            pre.len() <= hi - lo,
            lo <= hi <= cs.len(),
            k <= pre.len(),
            forall|j: int| 0 <= j < k ==> cs@[lo + j] == pre@[j],
        decreases pre.len() - k,
    {
        if cs[lo + k] != pre[k] {
            assert(cs@.subrange(lo as int, hi as int).take(pre.len() as int)[k as int] != pre@[k as int]);
            return false;
        }
        k = k + 1;
    }
    assert(cs@.subrange(lo as int, hi as int).take(pre.len() as int) =~= pre@);
    true
}

/// Whether `pat` occurs in `cs[lo..hi]`.
pub fn range_contains(cs: &Vec<char>, lo: usize, hi: usize, pat: &Vec<char>) -> (r: bool)
    requires
        lo <= hi <= cs.len(),
    ensures
        r == occurs_in(cs@.subrange(lo as int, hi as int), pat@),
{
    let ghost s = cs@.subrange(lo as int, hi as int);
    if pat.len() > hi - lo {
        return false;
    }
    if pat.len() == 0 {
        assert(s.subrange(0, 0 + pat.len()) =~= pat@);
        return true;
    }
    let mut i = lo;
    while i <= hi - pat.len()
        invariant
            0 < pat.len(),
            lo <= i <= hi - pat.len() + 1,
            pat.len() <= hi - lo,
            lo <= hi <= cs.len(),
            s == cs@.subrange(lo as int, hi as int),
            forall|j: int| 0 <= j < i - lo ==> #[trigger] s.subrange(j, j + pat.len()) != pat@,
        decreases hi - pat.len() + 1 - i,
    {
        if range_has_prefix(cs, i, hi, pat) {
            assert(s.subrange(i - lo, i - lo + pat.len()) =~= cs@.subrange(i as int, hi as int).take(
                pat.len() as int,
            ));
            return true;
        }
        assert(s.subrange(i - lo, i - lo + pat.len()) =~= cs@.subrange(i as int, hi as int).take(
            pat.len() as int,
        ));
        i = i + 1;
    }
    false
}

/// The start of the part of `cs[lo..hi]` after its last `sep` (`lo` when none).
pub fn after_last_range(cs: &Vec<char>, lo: usize, hi: usize, sep: char) -> (r: usize)
    requires
        lo <= hi <= cs.len(),
    ensures
        lo <= r <= hi,
        cs@.subrange(r as int, hi as int) == after_last(cs@.subrange(lo as int, hi as int), sep),
{
    let mut b = hi;
    while b > lo && cs[b - 1] != sep
        invariant
            lo <= b <= hi <= cs.len(),
            after_last(cs@.subrange(lo as int, hi as int), sep) == after_last(
                cs@.subrange(lo as int, b as int),
                sep,
            ) + cs@.subrange(b as int, hi as int),
        decreases b - lo,
    {
        assert(cs@.subrange(lo as int, b as int).drop_last() =~= cs@.subrange(lo as int, b - 1));
        assert(after_last(cs@.subrange(lo as int, b - 1), sep).push(cs@[b - 1]) + cs@.subrange(
            b as int,
            hi as int,
        ) =~= after_last(cs@.subrange(lo as int, b - 1), sep) + cs@.subrange(b - 1, hi as int));
        b = b - 1;
    }
    assert(after_last(cs@.subrange(lo as int, b as int), sep) =~= Seq::<char>::empty());
    assert(Seq::<char>::empty() + cs@.subrange(b as int, hi as int) =~= cs@.subrange(
        b as int,
        hi as int,
    ));
    b
}

} // verus!
