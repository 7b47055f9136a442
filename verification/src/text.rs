//! Small verified helpers on text, seen as a sequence of characters.

use vstd::prelude::*;

verus! {

/// The characters of `s`, in order.
pub fn to_chars(s: &str) -> (v: Vec<char>)
    ensures
        v@ == s@,
{
    let mut v: Vec<char> = Vec::new();
    for c in it: s.chars()
        invariant
            it.seq() == s@,
            v@ == it.seq().take(it.index() as int),
    {
        v.push(c);
    }
    v
}

/// Whether two texts hold the same characters.
pub fn same_text(a: &str, b: &str) -> (r: bool)
    ensures
        r == (a@ == b@),
{
    let x = a.to_owned();
    let y = b.to_owned();
    x == y
}

/// A copy of an optional text.
pub fn copy_opt_text(o: &Option<String>) -> (r: Option<String>)
    ensures
        r == *o,
{
    match o {
        Some(s) => Some(s.clone()),
        None => None,
    }
}

/// The white-space characters of Unicode.
pub open spec fn is_space(c: char) -> bool {
    let n = c as u32;
    (0x09 <= n <= 0x0D) || n == 0x20 || n == 0x85 || n == 0xA0 || n == 0x1680 || (0x2000 <= n
        <= 0x200A) || n == 0x2028 || n == 0x2029 || n == 0x202F || n == 0x205F || n == 0x3000
}

/// Whether `c` is white space.
pub fn space(c: char) -> (b: bool)
    ensures
        b == is_space(c),
{
    let n: u32 = c as u32;
    (0x09 <= n && n <= 0x0D) || n == 0x20 || n == 0x85 || n == 0xA0 || n == 0x1680 || (0x2000 <= n
        && n <= 0x200A) || n == 0x2028 || n == 0x2029 || n == 0x202F || n == 0x205F || n == 0x3000
}

/// The end of `s[from..to]` once trailing white space is dropped.
pub open spec fn drop_space_back(s: Seq<char>, from: int, to: int) -> int
    decreases to - from,
{
    if from < to <= s.len() && is_space(s[to - 1]) {
        drop_space_back(s, from, to - 1)
    } else {
        to
    }
}

/// Start of `s[from..to]` without its leading white space.
pub open spec fn trim_start_index(s: Seq<char>, from: int, to: int) -> int
    decreases to - from,
{
    if 0 <= from < to && is_space(s[from]) {
        trim_start_index(s, from + 1, to)
    } else {
        from
    }
}

/// The bounds of `v[from..to]` once white space is dropped at both ends.
pub fn trim_range(v: &Vec<char>, from: usize, to: usize) -> (r: (usize, usize))
    requires
        from <= to <= v@.len(),
    ensures
        r.0 == trim_start_index(v@, from as int, to as int),
        r.1 == drop_space_back(v@, r.0 as int, to as int),
        from <= r.0 <= r.1 <= to,
{
    let mut a: usize = from;
    while a < to && space(v[a])
        invariant
            from <= a <= to <= v@.len(),
            trim_start_index(v@, from as int, to as int) == trim_start_index(
                v@,
                a as int,
                to as int,
            ),
        decreases to - a,
    {
        a += 1;
    }
    let mut b: usize = to;
    while a < b && space(v[b - 1])
        invariant
            a <= b <= to <= v@.len(),
            drop_space_back(v@, a as int, to as int) == drop_space_back(v@, a as int, b as int),
        decreases b - a,
    {
        b -= 1;
    }
    (a, b)
}

/// `s[from..to]` without the white space at its ends.
pub open spec fn trimmed_span(s: Seq<char>, from: int, to: int) -> Seq<char> {
    let a = trim_start_index(s, from, to);
    s.subrange(a, drop_space_back(s, a, to))
}

/// The end of `v[from..to]` once trailing white space is dropped.
pub fn trim_end_index(v: &Vec<char>, from: usize, to: usize) -> (b: usize)
    requires
        from <= to <= v@.len(),
    ensures
        b == drop_space_back(v@, from as int, to as int),
        from <= b <= to,
{
    let mut b: usize = to;
    while from < b && space(v[b - 1])
        invariant
            from <= b <= to <= v@.len(),
            drop_space_back(v@, from as int, to as int) == drop_space_back(
                v@,
                from as int,
                b as int,
            ),
        decreases b - from,
    {
        b -= 1;
    }
    b
}

/// Whether `v` holds `pat` at position `at`.
pub open spec fn has_at(s: Seq<char>, pat: Seq<char>, at: int) -> bool {
    0 <= at && at + pat.len() <= s.len() && s.subrange(at, at + pat.len()) == pat
}

/// Whether `pat` occurs somewhere in `s`.
pub open spec fn occurs(s: Seq<char>, pat: Seq<char>) -> bool {
    exists|at: int| has_at(s, pat, at)
}

/// Whether `v` holds `pat` at position `at`.
pub fn match_at(v: &Vec<char>, pat: &Vec<char>, at: usize) -> (b: bool)
    ensures
        b == has_at(v@, pat@, at as int),
{
    if pat.len() > v.len() || at > v.len() - pat.len() {
        return false;
    }
    let mut i: usize = 0;
    while i < pat.len()
        invariant
            i <= pat@.len(),
            at + pat@.len() <= v@.len() <= usize::MAX,
            forall|k: int| 0 <= k < i ==> v@[at + k] == pat@[k],
        decreases pat@.len() - i,
    {
        if v[at + i] != pat[i] {
            proof {
                let sub = v@.subrange(at as int, at + pat@.len());
                assert(sub[i as int] == v@[at + i]);
            }
            return false;
        }
        i += 1;
    }
    assert(v@.subrange(at as int, at + pat@.len()) =~= pat@);
    true
}

/// Whether `pat` occurs somewhere in `v`.
pub fn contains(v: &Vec<char>, pat: &Vec<char>) -> (b: bool)
    ensures
        b == occurs(v@, pat@),
{
    if pat.len() > v.len() {
        return false;
    }
    let last: usize = v.len() - pat.len();
    let mut at: usize = 0;
    while at < last
        invariant
            last == v@.len() - pat@.len(),
            at <= last,
            forall|k: int| 0 <= k < at ==> !has_at(v@, pat@, k),
        decreases last - at,
    {
        if match_at(v, pat, at) {
            return true;
        }
        at += 1;
    }
    match_at(v, pat, last)
}

/// The text `v[from..to]`.
pub fn text_of(v: &Vec<char>, from: usize, to: usize) -> (s: String)
    requires
        from <= to <= v@.len(),
    ensures
        s@ == v@.subrange(from as int, to as int),
{
    let mut s = String::new();
    let mut i: usize = from;
    while i < to
        invariant
            from <= i <= to <= v@.len(),
            s@ == v@.subrange(from as int, i as int),
        decreases to - i,
    {
        push_char(&mut s, v[i]);
        proof {
            assert(v@.subrange(from as int, i + 1) =~= v@.subrange(from as int, i as int).push(
                v@[i as int],
            ));
        }
        i += 1;
    }
    s
}

/// What a list of texts holds.
pub open spec fn texts(v: Seq<String>) -> Seq<Seq<char>> {
    v.map_values(|s: String| s@)
}

/// The first place in `s[from..to]` that holds `c`, or `to`.
pub open spec fn find_char(s: Seq<char>, c: char, from: int, to: int) -> int
    decreases to - from,
{
    if from < to && s[from] != c {
        find_char(s, c, from + 1, to)
    } else {
        from
    }
}

/// The end of the line that starts at `from`, before its line feed and
/// the carriage return that may stand before that.
pub open spec fn line_end(s: Seq<char>, from: int) -> int {
    let e = find_char(s, '\n', from, s.len() as int);
    if e < s.len() && from < e && s[e - 1] == '\r' {
        e - 1
    } else {
        e
    }
}

/// The character of one decimal digit.
pub open spec fn digit_char(d: int) -> char {
    if d == 0 {
        '0'
    } else if d == 1 {
        '1'
    } else if d == 2 {
        '2'
    } else if d == 3 {
        '3'
    } else if d == 4 {
        '4'
    } else if d == 5 {
        '5'
    } else if d == 6 {
        '6'
    } else if d == 7 {
        '7'
    } else if d == 8 {
        '8'
    } else {
        '9'
    }
}

/// A number written in decimal digits, without leading zeros.
pub open spec fn decimal_text(n: nat) -> Seq<char>
    decreases n,
{
    if n < 10 {
        seq![digit_char(n as int)]
    } else {
        decimal_text(n / 10).push(digit_char((n % 10) as int))
    }
}

/// A whole number written in decimal digits, with a minus sign where it is negative.
pub open spec fn signed_decimal_text(n: int) -> Seq<char> {
    if n < 0 {
        seq!['-'] + decimal_text((-n) as nat)
    } else {
        decimal_text(n as nat)
    }
}

fn digit(d: u64) -> (c: char)
    requires
        d < 10,
    ensures
        c == digit_char(d as int),
{
    if d == 0 {
        '0'
    } else if d == 1 {
        '1'
    } else if d == 2 {
        '2'
    } else if d == 3 {
        '3'
    } else if d == 4 {
        '4'
    } else if d == 5 {
        '5'
    } else if d == 6 {
        '6'
    } else if d == 7 {
        '7'
    } else if d == 8 {
        '8'
    } else {
        '9'
    }
}

/// Adds `n`, written in decimal digits, to the end of `out`.
pub fn push_decimal(out: &mut String, n: u64)
    ensures
        final(out)@ == old(out)@ + decimal_text(n as nat),
    decreases n,
{
    if n < 10 {
        push_char(out, digit(n));
        assert(out@ =~= old(out)@ + decimal_text(n as nat));
    } else {
        push_decimal(out, n / 10);
        push_char(out, digit(n % 10));
        assert(out@ =~= old(out)@ + decimal_text(n as nat));
    }
}

/// Adds `n`, written in decimal digits with its sign, to the end of `out`.
pub fn push_signed_decimal(out: &mut String, n: i64)
    ensures
        final(out)@ == old(out)@ + signed_decimal_text(n as int),
{
    if n < 0 {
        push_char(out, '-');
        let m: u64 = if n == i64::MIN {
            0x8000_0000_0000_0000u64
        } else {
            (-n) as u64
        };
        push_decimal(out, m);
        assert(out@ =~= old(out)@ + signed_decimal_text(n as int));
    } else {
        push_decimal(out, n as u64);
    }
}

/// `String::push` of std: the character is added at the end of the text.
#[verifier::external_body]
pub(crate) fn push_char(s: &mut String, c: char)
    ensures
        final(s)@ == old(s)@.push(c),
{
    s.push(c);
}

} // verus!
