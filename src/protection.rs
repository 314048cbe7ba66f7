//! The keep-list: entries that protect records from deletion.
use std::collections::HashSet;
use vstd::prelude::*;

use crate::text::{chars_of, split_on, trim_range, trimmed};

verus! {

/// The entries of a keep-list, as character sequences.
pub open spec fn entries(keep: &HashSet<String>) -> Set<Seq<char>> {
    keep@.map(|e: String| e@)
}

/// Relies on `HashSet::contains`: a `String` key is found by a `&str` equal to it.
#[verifier::external_body]
fn keep_contains(keep: &HashSet<String>, key: &str) -> (r: bool)
    ensures
        r == entries(keep).contains(key@),
{
    keep.contains(key)
}

/// Relies on `HashSet::insert`: afterwards the set holds the entry, and nothing else changed.
#[verifier::external_body]
fn keep_insert(keep: &mut HashSet<String>, entry: String)
    ensures
        entries(final(keep)) == entries(old(keep)).insert(entry@),
{
    keep.insert(entry);
}

/// `platform:id` in `keep`, or the bare `id`.
pub open spec fn protected(keep: Set<Seq<char>>, platform: Seq<char>, id: Seq<char>) -> bool {
    keep.contains(platform + seq![':'] + id) || keep.contains(id)
}

/// Whether `id` on `platform` is protected: `keep` holds `"platform:id"` or
/// the bare `id`.
pub fn is_protected(keep: &HashSet<String>, platform: &str, id: &str) -> (r: bool)
    ensures
        r == protected(entries(keep), platform@, id@),
{
    let mut qualified = platform.to_owned();
    proof {
        reveal_strlit(":");
    }
    qualified.append(":");
    qualified.append(id);
    assert(qualified@ == platform@ + seq![':'] + id@);
    keep_contains(keep, qualified.as_str()) || keep_contains(keep, id)
}

/// A keep-list line that carries an entry: not blank once trimmed, and not a
/// `#` comment.
pub open spec fn is_entry_line(line: Seq<char>) -> bool {
    trimmed(line).len() > 0 && trimmed(line)[0] != '#'
}

/// The entries that the lines `lines` carry, each trimmed.
pub open spec fn entries_of_lines(lines: Seq<Seq<char>>) -> Set<Seq<char>>
    decreases lines.len(),
{
    if lines.len() == 0 {
        Set::empty()
    } else {
        let before = entries_of_lines(lines.drop_last());
        if is_entry_line(lines.last()) {
            before.insert(trimmed(lines.last()))
        } else {
            before
        }
    }
}

/// The entries of a keep-list text: its lines, trimmed, without blank lines
/// and `#` comments.
pub open spec fn keep_list_entries(text: Seq<char>) -> Set<Seq<char>> {
    entries_of_lines(split_on(text, '\n'))
}

/// Adds the entry of the line `cs[lo..hi]` of `text`, if it carries one.
fn add_line(keep: &mut HashSet<String>, text: &str, cs: &Vec<char>, lo: usize, hi: usize)
    requires
        cs@ == text@,
        lo <= hi <= cs.len(),
    ensures
        is_entry_line(cs@.subrange(lo as int, hi as int)) ==> entries(final(keep)) == entries(
            old(keep),
        ).insert(trimmed(cs@.subrange(lo as int, hi as int))),
        !is_entry_line(cs@.subrange(lo as int, hi as int)) ==> entries(final(keep)) == entries(
            old(keep),
        ),
{
    let (a, b) = trim_range(cs, lo, hi);
    if a < b && cs[a] != '#' {
        let entry = text.substring_char(a, b).to_owned();
        keep_insert(keep, entry);
    }
}

/// The keep-list read from `contents`; `None` (no list, or one that could
/// not be read) gives an empty list.
pub fn load_keep_list(contents: Option<&str>) -> (r: HashSet<String>)
    ensures
        entries(&r) == match contents {
            None => Set::empty(),
            Some(text) => keep_list_entries(text@),
        },
{
    let mut keep: HashSet<String> = HashSet::new();
    assert(entries(&keep) =~= Set::empty());
    let text = match contents {
        None => return keep,
        Some(text) => text,
    };
    let cs = chars_of(text);
    let mut start: usize = 0;
    let mut i: usize = 0;
    assert(cs@.subrange(0, 0) =~= Seq::<char>::empty());
    while i < cs.len()
        invariant
            cs@ == text@,
            start <= i <= cs.len(),
            split_on(cs@.subrange(0, i as int), '\n').last() == cs@.subrange(start as int, i as int),
            entries(&keep) == entries_of_lines(split_on(cs@.subrange(0, i as int), '\n').drop_last()),
        decreases cs.len() - i,
    {
        let ghost lines = split_on(cs@.subrange(0, i as int), '\n');
        proof {
            crate::text::lemma_split_on_len(cs@.subrange(0, i as int), '\n');
        }
        assert(cs@.subrange(0, i + 1).drop_last() =~= cs@.subrange(0, i as int));
        if cs[i] == '\n' {
            add_line(&mut keep, text, &cs, start, i);
            let ghost next = lines.push(Seq::<char>::empty());
            assert(next.drop_last() =~= lines);
            assert(lines =~= lines.drop_last().push(lines.last()));
            assert(cs@.subrange(i + 1, i + 1) =~= Seq::<char>::empty());
            start = i + 1;
        } else {
            let ghost next = lines.update(lines.len() - 1, lines.last().push(cs@[i as int]));
            assert(next.drop_last() =~= lines.drop_last());
            assert(cs@.subrange(start as int, i as int).push(cs@[i as int]) =~= cs@.subrange(
                start as int,
                i + 1,
            ));
        }
        i = i + 1;
    }
    proof {
        crate::text::lemma_split_on_len(cs@, '\n');
    }
    add_line(&mut keep, text, &cs, start, cs.len());
    let ghost lines = split_on(cs@, '\n');
    assert(cs@.subrange(0, cs.len() as int) =~= cs@);
    assert(lines =~= lines.drop_last().push(lines.last()));
    keep
}

} // verus!
