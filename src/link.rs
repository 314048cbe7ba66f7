//! Continuation cursors: the `max_id` of a `Link` header's `rel="next"` link,
//! and the cursor of a page of statuses.
use vstd::prelude::*;

use crate::engine::Record;
use crate::text::{
    chars_of, has_prefix, occurs_in, range_contains, range_has_prefix, split_on, split_range,
    trim_range, trimmed,
};

verus! {

pub open spec fn rel_next() -> Seq<char> {
    "rel=\"next\""@
}

pub open spec fn max_id_prefix() -> Seq<char> {
    "max_id="@
}

/// The value of the first `max_id=` parameter among `params`.
pub open spec fn max_id_param(params: Seq<Seq<char>>) -> Option<Seq<char>>
    decreases params.len(),
{
    if params.len() == 0 {
        None
    } else if has_prefix(params[0], max_id_prefix()) {
        Some(params[0].skip(max_id_prefix().len() as int))
    } else {
        max_id_param(params.drop_first())
    }
}

/// What one comma-separated part of a `Link` header says: `None` to go on
/// with the next part, `Some(answer)` to stop with `answer`. A part that
/// names `rel="next"` gives the `max_id` of the query of its `<...>` link,
/// or, when that link has no `max_id`, sends on to the next part; the answer
/// is `None` when the part does not open with `<`, or its link has no query.
pub open spec fn part_reading(part: Seq<char>) -> Option<Option<Seq<char>>> {
    if !occurs_in(part, rel_next()) {
        None
    } else {
        let t = trimmed(part);
        if t.len() == 0 || t[0] != '<' {
            Some(None)
        } else {
            let url = split_on(t.drop_first(), '>')[0];
            let pieces = split_on(url, '?');
            if pieces.len() < 2 {
                Some(None)
            } else {
                match max_id_param(split_on(pieces[1], '&')) {
                    Some(v) => Some(Some(v)),
                    None => None,
                }
            }
        }
    }
}

/// The answer of the first part of `parts` that stops, or `None`.
pub open spec fn link_reading(parts: Seq<Seq<char>>) -> Option<Seq<char>>
    decreases parts.len(),
{
    if parts.len() == 0 {
        None
    } else {
        match part_reading(parts[0]) {
            Some(answer) => answer,
            None => link_reading(parts.drop_first()),
        }
    }
}

/// The `max_id` that the `rel="next"` link of a `Link` header carries.
pub open spec fn max_id_of_link(link: Seq<char>) -> Option<Seq<char>> {
    link_reading(split_on(link, ','))
}

pub open spec fn opt_view(o: Option<String>) -> Option<Seq<char>> {
    match o {
        Some(s) => Some(s@),
        None => None,
    }
}

/// Reads the part `cs[lo..hi]` of the header `link`, as `part_reading` says.
fn read_part(link: &str, cs: &Vec<char>, lo: usize, hi: usize, rel: &Vec<char>, pre: &Vec<char>) -> (r:
    Option<Option<String>>)
    requires
        cs@ == link@,
        rel@ == rel_next(),
        pre@ == max_id_prefix(),
        lo <= hi <= cs.len(),
    ensures
        r is None <==> part_reading(cs@.subrange(lo as int, hi as int)) is None,
        r matches Some(a) ==> part_reading(cs@.subrange(lo as int, hi as int)) == Some(
            opt_view(a),
        ),
{
    let ghost part = cs@.subrange(lo as int, hi as int);
    if !range_contains(cs, lo, hi, rel) {
        return None;
    }
    let (a, b) = trim_range(cs, lo, hi);
    if a == b || cs[a] != '<' {
        return Some(None);
    }
    assert(trimmed(part).drop_first() =~= cs@.subrange(a + 1, b as int));
    let urls = split_range(cs, a + 1, b, '>');
    let (ua, ub) = urls[0];
    assert(split_on(trimmed(part).drop_first(), '>')[0] == cs@.subrange(ua as int, ub as int));
    let pieces = split_range(cs, ua, ub, '?');
    if pieces.len() < 2 {
        return Some(None);
    }
    let (qa, qb) = pieces[1];
    assert(split_on(cs@.subrange(ua as int, ub as int), '?')[1] == cs@.subrange(qa as int, qb as int));
    let params = split_range(cs, qa, qb, '&');
    let ghost pv = split_on(cs@.subrange(qa as int, qb as int), '&');
    let mut j: usize = 0;
    assert(pv.skip(0) =~= pv);
    assert(part_reading(part) == match max_id_param(pv) {
        Some(v) => Some(Some(v)),
        None => None::<Option<Seq<char>>>,
    });
    while j < params.len()
        invariant
            part == cs@.subrange(lo as int, hi as int),
            part_reading(part) == match max_id_param(pv) {
                Some(v) => Some(Some(v)),
                None => None::<Option<Seq<char>>>,
            },
            cs@ == link@,
            pre@ == max_id_prefix(),
            qa <= qb <= cs.len(),
            j <= params.len(),
            forall|k: int| 0 <= k < params.len() ==> qa <= (#[trigger] params@[k]).0 <= params@[k].1 <= qb,
            params@.map_values(|p: (usize, usize)| cs@.subrange(p.0 as int, p.1 as int)) == pv,
            max_id_param(pv) == max_id_param(pv.skip(j as int)),
        decreases params.len() - j,
    {
        let (pa, pb) = params[j];
        assert(pv[j as int] == cs@.subrange(pa as int, pb as int));
        assert(pv.skip(j as int)[0] == pv[j as int]);
        assert(pv.len() == params.len());
        if range_has_prefix(cs, pa, pb, pre) {
            let v = link.substring_char(pa + pre.len(), pb).to_owned();
            assert(v@ =~= pv[j as int].skip(max_id_prefix().len() as int));
            assert(max_id_param(pv) == Some(v@));
            return Some(Some(v));
        }
        assert(pv.skip(j as int).drop_first() =~= pv.skip(j + 1));
        j = j + 1;
    }
    assert(pv.skip(j as int).len() == 0);
    None
}

/// The `max_id` of the next page, read from a `Link` header such as
/// `<https://host/api/v1/favourites?max_id=123>; rel="next"`.
pub fn parse_max_id_from_link(link: &str) -> (r: Option<String>)
    ensures
        max_id_of_link(link@) == opt_view(r),
{
    let cs = chars_of(link);
    let rel = chars_of("rel=\"next\"");
    let pre = chars_of("max_id=");
    let parts = split_range(&cs, 0, cs.len(), ',');
    let ghost pv = split_on(link@, ',');
    assert(cs@.subrange(0, cs.len() as int) =~= link@);
    assert(pv.skip(0) =~= pv);
    let mut k: usize = 0;
    while k < parts.len()
        invariant
            pv == split_on(link@, ','),
            cs@ == link@,
            rel@ == rel_next(),
            pre@ == max_id_prefix(),
            k <= parts.len(),
            forall|i: int| 0 <= i < parts.len() ==> 0 <= (#[trigger] parts@[i]).0 <= parts@[i].1 <= cs.len(),
            parts@.map_values(|p: (usize, usize)| cs@.subrange(p.0 as int, p.1 as int)) == pv,
            link_reading(pv) == link_reading(pv.skip(k as int)),
        decreases parts.len() - k,
    {
        let (lo, hi) = parts[k];
        assert(pv[k as int] == cs@.subrange(lo as int, hi as int));
        assert(pv.skip(k as int)[0] == pv[k as int]);
        assert(pv.len() == parts.len());
        match read_part(link, &cs, lo, hi, &rel, &pre) {
            Some(answer) => {
                assert(link_reading(pv.skip(k as int)) == match part_reading(pv[k as int]) {
                    Some(a) => a,
                    None => link_reading(pv.skip(k as int).drop_first()),
                });
                return answer;
            },
            None => {},
        }
        assert(pv.skip(k as int).drop_first() =~= pv.skip(k + 1));
        k = k + 1;
    }
    assert(pv.skip(k as int).len() == 0);
    None
}

/// The cursor of a page of statuses, newest first: the identifier of its
/// last (oldest) status, or `None` for an empty page.
pub fn last_id_cursor(records: &Vec<Record>) -> (r: Option<String>)
    ensures
        records.len() == 0 ==> r is None,
        records.len() > 0 ==> (r matches Some(c) && c@ == records@.last().uri@),
{
    if records.len() == 0 {
        None
    } else {
        Some(records[records.len() - 1].uri.clone())
    }
}

} // verus!
