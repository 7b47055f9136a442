//! The progress reports of the worker: the template that asks for them, the
//! reading of one report, and the rule that thins them out.

use crate::text::drop_space_back;
use crate::text::find_char;
use crate::text::same_text;
use crate::text::text_of;
use crate::text::to_chars;
use crate::text::trim_range;
use crate::text::trim_start_index;
use crate::text::trimmed_span;
use crate::types::PERCENT_COMPLETE;
use crate::types::ProgressInfo;
use crate::types::opt_text;
use vstd::prelude::*;

verus! {

/// What a progress report holds.
pub struct ProgressView {
    pub percent: u64,
    pub speed: Option<Seq<char>>,
    pub eta: Option<Seq<char>>,
}

impl View for ProgressInfo {
    type V = ProgressView;

    open spec fn view(&self) -> ProgressView {
        ProgressView {
            percent: self.percent,
            speed: opt_text(self.speed),
            eta: opt_text(self.eta),
        }
    }
}

/// The largest whole percentage that is kept exactly; above it the value
/// reads as the largest number there is.
pub const MAX_WHOLE_PERCENT: u64 = 18446744073709550;

/// A decimal digit.
pub open spec fn is_digit(c: char) -> bool {
    '0' <= c && c <= '9'
}

/// The number that a decimal digit stands for.
pub open spec fn digit_of(c: char) -> nat {
    (c as u32 - '0' as u32) as nat
}

/// The first place in `s[from..to]` that holds neither a digit nor a dot, or `to`.
pub open spec fn number_end(s: Seq<char>, from: int, to: int) -> int
    decreases to - from,
{
    if from < to && (is_digit(s[from]) || s[from] == '.') {
        number_end(s, from + 1, to)
    } else {
        from
    }
}

/// Whether `s[from..to]` holds digits only.
pub open spec fn all_digits(s: Seq<char>, from: int, to: int) -> bool {
    forall|i: int| from <= i < to ==> is_digit(#[trigger] s[i])
}

/// The number that the digits `s[from..to]` spell.
pub open spec fn span_value(s: Seq<char>, from: int, to: int) -> nat
    decreases to - from,
{
    if from >= to {
        0
    } else {
        span_value(s, from, to - 1) * 10 + digit_of(s[to - 1])
    }
}

/// Whether `s[from..to]` is a decimal number: digits with at most one dot
/// among them, and one digit at least.
pub open spec fn is_decimal(s: Seq<char>, from: int, to: int) -> bool {
    let dot = find_char(s, '.', from, to);
    &&& all_digits(s, from, dot)
    &&& all_digits(s, dot + 1, to)
    &&& (if dot < to {
        to - from >= 2
    } else {
        to - from >= 1
    })
}

/// The digit at place `i` if that lies before `to`, else zero.
pub open spec fn digit_or_zero(s: Seq<char>, i: int, to: int) -> nat {
    if i < to {
        digit_of(s[i])
    } else {
        0
    }
}

/// The decimal number `s[from..to]` in thousandths, digits beyond the third
/// after the dot left off. A number whose whole part is above
/// `MAX_WHOLE_PERCENT` reads as the largest number there is.
pub open spec fn thousandths(s: Seq<char>, from: int, to: int) -> u64 {
    let dot = find_char(s, '.', from, to);
    let whole = span_value(s, from, dot);
    if whole > MAX_WHOLE_PERCENT {
        u64::MAX
    } else {
        (whole * 1000 + digit_or_zero(s, dot + 1, to) * 100 + digit_or_zero(s, dot + 2, to) * 10
            + digit_or_zero(s, dot + 3, to)) as u64
    }
}

/// What a field of a report says: nothing where it is empty or holds one
/// of the worker's words for "not known".
pub open spec fn field_text(s: Seq<char>, from: int, to: int) -> Option<Seq<char>> {
    let t = trimmed_span(s, from, to);
    if t.len() == 0 || t == "N/A"@ || t == "Unknown"@ {
        None
    } else {
        Some(t)
    }
}

/// What a line of the worker's output says of the progress, if it is a
/// report: a decimal number, a percent sign, a bar, the speed, a bar and the
/// time left, with nothing but white space around them and no third bar.
pub open spec fn parsed_progress(line: Seq<char>) -> Option<ProgressView> {
    let a = trim_start_index(line, 0, line.len() as int);
    let b = drop_space_back(line, a, line.len() as int);
    let p = number_end(line, a, b);
    let s1 = find_char(line, '|', p + 2, b);
    if p > a && p + 1 < b && line[p] == '%' && line[p + 1] == '|' && s1 < b && find_char(
        line,
        '|',
        s1 + 1,
        b,
    ) == b && is_decimal(line, a, p) {
        Some(
            ProgressView {
                percent: thousandths(line, a, p),
                speed: field_text(line, p + 2, s1),
                eta: field_text(line, s1 + 1, b),
            },
        )
    } else {
        None
    }
}

fn scan_char(v: &Vec<char>, c: char, from: usize, to: usize) -> (at: usize)
    requires
        from <= to <= v@.len(),
    ensures
        at == find_char(v@, c, from as int, to as int),
        from <= at <= to,
{
    let mut i: usize = from;
    while i < to && v[i] != c
        invariant
            from <= i <= to <= v@.len(),
            find_char(v@, c, from as int, to as int) == find_char(v@, c, i as int, to as int),
        decreases to - i,
    {
        i += 1;
    }
    i
}

fn digit(c: char) -> (b: bool)
    ensures
        b == is_digit(c),
{
    '0' <= c && c <= '9'
}

fn digit_value(c: char) -> (d: u64)
    requires
        is_digit(c),
    ensures
        d == digit_of(c),
        d <= 9,
{
    (c as u32 - '0' as u32) as u64
}

fn scan_number(v: &Vec<char>, from: usize, to: usize) -> (at: usize)
    requires
        from <= to <= v@.len(),
    ensures
        at == number_end(v@, from as int, to as int),
        from <= at <= to,
{
    let mut i: usize = from;
    while i < to && (digit(v[i]) || v[i] == '.')
        invariant
            from <= i <= to <= v@.len(),
            number_end(v@, from as int, to as int) == number_end(v@, i as int, to as int),
        decreases to - i,
    {
        i += 1;
    }
    i
}

fn only_digits(v: &Vec<char>, from: usize, to: usize) -> (b: bool)
    requires
        from <= to <= v@.len(),
    ensures
        b == all_digits(v@, from as int, to as int),
{
    let mut i: usize = from;
    while i < to
        invariant
            from <= i <= to <= v@.len(),
            all_digits(v@, from as int, i as int),
        decreases to - i,
    {
        if !digit(v[i]) {
            return false;
        }
        i += 1;
    }
    true
}

proof fn lemma_span_value_grows(s: Seq<char>, from: int, mid: int, to: int)
    requires
        from <= mid <= to,
    ensures
        span_value(s, from, mid) <= span_value(s, from, to),
    decreases to - mid,
{
    if mid < to {
        lemma_span_value_grows(s, from, mid, to - 1);
    }
}

fn digit_at(v: &Vec<char>, i: usize, to: usize) -> (d: u64)
    requires
        to <= v@.len(),
        i < to ==> is_digit(v@[i as int]),
    ensures
        d == digit_or_zero(v@, i as int, to as int),
        d <= 9,
{
    if i < to {
        digit_value(v[i])
    } else {
        0
    }
}

fn read_thousandths(v: &Vec<char>, from: usize, to: usize) -> (n: u64)
    requires
        from <= to <= v@.len(),
        is_decimal(v@, from as int, to as int),
    ensures
        n == thousandths(v@, from as int, to as int),
{
    let dot = scan_char(v, '.', from, to);
    let mut whole: u64 = 0;
    let mut i: usize = from;
    while i < dot
        invariant
            from <= i <= dot <= to <= v@.len(),
            dot == find_char(v@, '.', from as int, to as int),
            all_digits(v@, from as int, dot as int),
            whole == span_value(v@, from as int, i as int),
            whole <= MAX_WHOLE_PERCENT,
        decreases dot - i,
    {
        let d = digit_value(v[i]);
        let next: u64 = whole * 10 + d;
        assert(next == span_value(v@, from as int, i + 1));
        if next > MAX_WHOLE_PERCENT {
            proof {
                lemma_span_value_grows(v@, from as int, i + 1, dot as int);
            }
            return u64::MAX;
        }
        whole = next;
        i += 1;
    }
    let d1 = if dot < to {
        digit_at(v, dot + 1, to)
    } else {
        0
    };
    let d2 = if to - dot > 2 {
        digit_at(v, dot + 2, to)
    } else {
        0
    };
    let d3 = if to - dot > 3 {
        digit_at(v, dot + 3, to)
    } else {
        0
    };
    whole * 1000 + d1 * 100 + d2 * 10 + d3
}

fn read_field(v: &Vec<char>, from: usize, to: usize) -> (r: Option<String>)
    requires
        from <= to <= v@.len(),
    ensures
        opt_text(r) == field_text(v@, from as int, to as int),
{
    let (a, b) = trim_range(v, from, to);
    let t = text_of(v, a, b);
    if a == b || same_text(t.as_str(), "N/A") || same_text(t.as_str(), "Unknown") {
        None
    } else {
        Some(t)
    }
}

/// Reads one line of the worker's output as a progress report. A line that
/// is no report gives nothing; that is no error.
pub fn parse_progress_line(line: &str) -> (r: Option<ProgressInfo>)
    ensures
        match r {
            Some(info) => parsed_progress(line@) == Some(info@),
            None => parsed_progress(line@) is None,
        },
{
    let v = to_chars(line);
    let (a, b) = trim_range(&v, 0, v.len());
    let p = scan_number(&v, a, b);
    if !(p > a && p < b && b - p > 1) {
        return None;
    }
    if v[p] != '%' || v[p + 1] != '|' {
        return None;
    }
    let s1 = scan_char(&v, '|', p + 2, b);
    if s1 >= b {
        return None;
    }
    if scan_char(&v, '|', s1 + 1, b) != b {
        return None;
    }
    let dot = scan_char(&v, '.', a, p);
    let enough = if dot < p {
        p - a >= 2
    } else {
        p - a >= 1
    };
    if !enough || !only_digits(&v, a, dot) {
        return None;
    }
    if dot < p && !only_digits(&v, dot + 1, p) {
        return None;
    }
    let percent = read_thousandths(&v, a, p);
    let speed = read_field(&v, p + 2, s1);
    let eta = read_field(&v, s1 + 1, b);
    Some(ProgressInfo { percent, speed, eta })
}

/// The words of the template that makes the worker print its progress as
/// percent, speed and time left, with bars between them.
pub open spec fn template_text() -> Seq<char> {
    "download:%(progress._percent_str)s|%(progress._speed_str)s|%(progress._eta_str)s"@
}

/// The template that is handed to the worker.
pub fn progress_template() -> (t: String)
    ensures
        t@ == template_text(),
{
    "download:%(progress._percent_str)s|%(progress._speed_str)s|%(progress._eta_str)s".to_owned()
}

/// The smallest change of the percentage that is worth a report: a fifth
/// of a percent.
pub const PROGRESS_STEP: u64 = 200;

/// After this many milliseconds a report is due whatever the change.
pub const PROGRESS_INTERVAL_MS: u64 = 500;

/// How far two numbers lie apart.
pub open spec fn distance(a: u64, b: u64) -> int {
    if a >= b {
        a - b
    } else {
        b - a
    }
}

/// Whether a report of `percent` is passed on, `elapsed_ms` after the last
/// one that was, which said `last`: the first always, a later one when the
/// percentage moved by a step, when the interval is over, or when the
/// download is complete.
pub open spec fn report_due(last: Option<u64>, percent: u64, elapsed_ms: u64) -> bool {
    match last {
        None => true,
        Some(prev) => distance(percent, prev) >= PROGRESS_STEP || elapsed_ms
            >= PROGRESS_INTERVAL_MS || percent >= PERCENT_COMPLETE,
    }
}

/// Whether a report of `percent` is passed on; see `report_due`.
pub fn should_report(last: Option<u64>, percent: u64, elapsed_ms: u64) -> (due: bool)
    ensures
        due == report_due(last, percent, elapsed_ms),
{
    match last {
        None => true,
        Some(prev) => {
            let moved: u64 = if percent >= prev {
                percent - prev
            } else {
                prev - percent
            };
            moved >= PROGRESS_STEP || elapsed_ms >= PROGRESS_INTERVAL_MS || percent
                >= PERCENT_COMPLETE
        },
    }
}

/// The text shown for a speed or a time left that the worker did not give.
pub open spec fn shown_field(field: Option<Seq<char>>) -> Seq<char> {
    match field {
        Some(t) => t,
        None => "..."@,
    }
}

/// The text shown for a speed or a time left.
pub fn shown(field: &Option<String>) -> (t: String)
    ensures
        t@ == shown_field(opt_text(*field)),
{
    match field {
        Some(s) => s.clone(),
        None => "...".to_owned(),
    }
}

} // verus!
