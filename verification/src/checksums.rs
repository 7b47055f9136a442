//! The list of check sums that comes with a release of the worker.

use crate::text::drop_space_back;
use crate::text::find_char;
use crate::text::is_space;
use crate::text::line_end;
use crate::text::same_text;
use crate::text::space;
use crate::text::text_of;
use crate::text::to_chars;
use crate::text::trim_range;
use crate::text::trim_start_index;
use vstd::prelude::*;

verus! {

/// The first place in `s[from..to]` that holds white space, or `to`.
pub open spec fn first_space(s: Seq<char>, from: int, to: int) -> int
    decreases to - from,
{
    if from < to && !is_space(s[from]) {
        first_space(s, from + 1, to)
    } else {
        from
    }
}

/// The first place in `s[from..to]` that holds no asterisk, or `to`.
pub open spec fn after_stars(s: Seq<char>, from: int, to: int) -> int
    decreases to - from,
{
    if from < to && s[from] == '*' {
        after_stars(s, from + 1, to)
    } else {
        from
    }
}

/// What the line `s[from..to]` of a list of check sums says: the name of
/// a file and its check sum. The check sum stands first, up to the first
/// white space; the name is the rest, without the white space around it
/// and the asterisks before it. A line without white space says nothing.
pub open spec fn entry_of_line(s: Seq<char>, from: int, to: int) -> Option<
    (Seq<char>, Seq<char>),
> {
    let w = first_space(s, from, to);
    if w < to {
        let a = trim_start_index(s, w + 1, to);
        let b = drop_space_back(s, a, to);
        Some((s.subrange(after_stars(s, a, b), b), s.subrange(from, w)))
    } else {
        None
    }
}

/// What the lines of `s` from `from` on say, in their order.
pub open spec fn entries_from(s: Seq<char>, from: int) -> Seq<(Seq<char>, Seq<char>)>
    decreases s.len() - from + 1,
{
    let feed = find_char(s, '\n', from, s.len() as int);
    if from < 0 || from >= s.len() || feed < from || feed > s.len() {
        Seq::empty()
    } else {
        match entry_of_line(s, from, line_end(s, from)) {
            Some(e) => seq![e] + entries_from(s, feed + 1),
            None => entries_from(s, feed + 1),
        }
    }
}

/// The names and check sums of a list of pairs of texts.
pub open spec fn pairs(v: Seq<(String, String)>) -> Seq<(Seq<char>, Seq<char>)> {
    v.map_values(|p: (String, String)| (p.0@, p.1@))
}

/// Reads a list of check sums: for each line that names a file, the name
/// and the check sum, in the order of the lines.
pub fn parse_checksums(text: &str) -> (entries: Vec<(String, String)>)
    ensures
        pairs(entries@) == entries_from(text@, 0),
{
    let v = to_chars(text);
    let mut entries: Vec<(String, String)> = Vec::new();
    let mut from: usize = 0;
    assert(pairs(entries@) =~= Seq::<(Seq<char>, Seq<char>)>::empty());
    while from < v.len()
        invariant
            from <= v@.len(),
            v@ == text@,
            entries_from(v@, 0) == pairs(entries@) + entries_from(v@, from as int),
        decreases v@.len() - from,
    {
        let mut e: usize = from;
        while e < v.len() && v[e] != '\n'
            invariant
                from <= e <= v@.len(),
                find_char(v@, '\n', from as int, v@.len() as int) == find_char(
                    v@,
                    '\n',
                    e as int,
                    v@.len() as int,
                ),
            decreases v@.len() - e,
        {
            e += 1;
        }
        let end: usize = if e < v.len() && from < e && v[e - 1] == '\r' {
            e - 1
        } else {
            e
        };
        let mut w: usize = from;
        while w < end && !space(v[w])
            invariant
                from <= w <= end <= v@.len(),
                first_space(v@, from as int, end as int) == first_space(v@, w as int, end as int),
            decreases end - w,
        {
            w += 1;
        }
        let ghost before = pairs(entries@);
        if w < end {
            let (a, b) = trim_range(&v, w + 1, end);
            let mut n: usize = a;
            while n < b && v[n] == '*'
                invariant
                    a <= n <= b <= v@.len(),
                    after_stars(v@, a as int, b as int) == after_stars(v@, n as int, b as int),
                decreases b - n,
            {
                n += 1;
            }
            let name = text_of(&v, n, b);
            let hash = text_of(&v, from, w);
            entries.push((name, hash));
            assert(pairs(entries@) =~= before.push(
                entry_of_line(v@, from as int, end as int)->0,
            ));
        }
        proof {
            let rest = entries_from(v@, e + 1);
            match entry_of_line(v@, from as int, end as int) {
                Some(p) => {
                    assert(before + (seq![p] + rest) =~= before.push(p) + rest);
                },
                None => {},
            }
        }
        if e == v.len() {
            proof {
                assert(entries_from(v@, e + 1) =~= Seq::<(Seq<char>, Seq<char>)>::empty());
                assert(pairs(entries@) + Seq::<(Seq<char>, Seq<char>)>::empty() =~= pairs(
                    entries@,
                ));
            }
            from = e;
        } else {
            from = e + 1;
        }
    }
    assert(entries_from(v@, from as int) =~= Seq::<(Seq<char>, Seq<char>)>::empty());
    entries
}

/// The check sum that the first entry for the file `name` gives, if
/// there is one.
pub open spec fn checksum_for(entries: Seq<(Seq<char>, Seq<char>)>, name: Seq<char>) -> Option<
    Seq<char>,
>
    decreases entries.len(),
{
    if entries.len() == 0 {
        None
    } else if entries[0].0 == name {
        Some(entries[0].1)
    } else {
        checksum_for(entries.drop_first(), name)
    }
}

/// Looks the check sum of the file `name` up in a list of check sums.
pub fn find_checksum(entries: &Vec<(String, String)>, name: &str) -> (r: Option<String>)
    ensures
        crate::types::opt_text(r) == checksum_for(pairs(entries@), name@),
{
    let mut i: usize = 0;
    let ghost all = pairs(entries@);
    assert(all.skip(0) =~= all);
    while i < entries.len()
        invariant
            i <= entries@.len(),
            all == pairs(entries@),
            checksum_for(all, name@) == checksum_for(all.skip(i as int), name@),
        decreases entries@.len() - i,
    {
        proof {
            assert(all.skip(i as int).drop_first() =~= all.skip(i + 1));
            assert(all.skip(i as int)[0] == all[i as int]);
        }
        if same_text(entries[i].0.as_str(), name) {
            return Some(entries[i].1.clone());
        }
        i += 1;
    }
    None
}

} // verus!
