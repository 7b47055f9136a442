//! The lines of the log file and the rules for keeping it small. Writing
//! and reading the file is left to the caller.

use crate::clock::LocalTime;
use crate::paths::join;
use crate::paths::joined_with;
use crate::text::find_char;
use crate::text::line_end;
use crate::text::text_of;
use crate::text::texts;
use crate::text::to_chars;
use crate::clock::format_timestamp;
use crate::clock::local_now;
use crate::clock::timestamp_text;
use vstd::prelude::*;
use vstd::string::StringExecFns;

verus! {

/// The size above which the log file is put aside and a new one begun: five MiB.
pub const MAX_LOG_SIZE: u64 = 5242880;

/// How many bytes of the end of the log file are read back at most: 256 KiB.
pub const MAX_TAIL_BYTES: u64 = 262144;

/// One line of the log: the time and the level in square brackets, then
/// the message and a line feed.
pub open spec fn log_line(timestamp: Seq<char>, level: Seq<char>, message: Seq<char>) -> Seq<
    char,
> {
    "["@ + timestamp + "] ["@ + level + "] "@ + message + "\n"@
}

/// A message with its context in square brackets before it.
pub open spec fn with_context(context: Seq<char>, message: Seq<char>) -> Seq<char> {
    "["@ + context + "] "@ + message
}

fn line(timestamp: &str, level: &str, message: &str) -> (entry: String)
    ensures
        entry@ == log_line(timestamp@, level@, message@),
{
    let mut entry = "[".to_owned();
    entry.append(timestamp);
    entry.append("] [");
    entry.append(level);
    entry.append("] ");
    entry.append(message);
    entry.append("\n");
    entry
}

/// The log line of an error that is logged at `timestamp`.
pub fn error_at(timestamp: &str, message: &str) -> (entry: String)
    ensures
        entry@ == log_line(timestamp@, "ERROR"@, message@),
{
    line(timestamp, "ERROR", message)
}

/// The log line of an error, logged at `timestamp`, that names where it arose.
pub fn error_with_context_at(timestamp: &str, context: &str, message: &str) -> (entry: String)
    ensures
        entry@ == log_line(timestamp@, "ERROR"@, with_context(context@, message@)),
{
    let mut text = "[".to_owned();
    text.append(context);
    text.append("] ");
    text.append(message);
    line(timestamp, "ERROR", text.as_str())
}

/// The log line of a warning that is logged at `timestamp`.
pub fn warn_at(timestamp: &str, message: &str) -> (entry: String)
    ensures
        entry@ == log_line(timestamp@, "WARN"@, message@),
{
    line(timestamp, "WARN", message)
}

/// The log line of a note that is logged at `timestamp`.
pub fn info_at(timestamp: &str, message: &str) -> (entry: String)
    ensures
        entry@ == log_line(timestamp@, "INFO"@, message@),
{
    line(timestamp, "INFO", message)
}

/// The log line of an error that is logged now, by the machine's clock.
pub fn error(message: &str) -> (entry: String)
    ensures
        exists|now: LocalTime|
            entry@ == log_line(#[trigger] timestamp_text(now), "ERROR"@, message@),
{
    let now = format_timestamp(&local_now());
    error_at(now.as_str(), message)
}

/// The log line of an error, logged now, that names where it arose.
pub fn error_with_context(context: &str, message: &str) -> (entry: String)
    ensures
        exists|now: LocalTime|
            entry@ == log_line(
                #[trigger] timestamp_text(now),
                "ERROR"@,
                with_context(context@, message@),
            ),
{
    let now = format_timestamp(&local_now());
    error_with_context_at(now.as_str(), context, message)
}

/// The log line of a warning that is logged now, by the machine's clock.
pub fn warn(message: &str) -> (entry: String)
    ensures
        exists|now: LocalTime|
            entry@ == log_line(#[trigger] timestamp_text(now), "WARN"@, message@),
{
    let now = format_timestamp(&local_now());
    warn_at(now.as_str(), message)
}

/// The log line of a note that is logged now, by the machine's clock.
pub fn info(message: &str) -> (entry: String)
    ensures
        exists|now: LocalTime|
            entry@ == log_line(#[trigger] timestamp_text(now), "INFO"@, message@),
{
    let now = format_timestamp(&local_now());
    info_at(now.as_str(), message)
}

/// The lines of `s` from `from` on, each without its line end.
pub open spec fn lines_from(s: Seq<char>, from: int) -> Seq<Seq<char>>
    decreases s.len() - from + 1,
{
    let feed = find_char(s, '\n', from, s.len() as int);
    if from < 0 || from >= s.len() || feed < from || feed > s.len() {
        Seq::empty()
    } else {
        seq![s.subrange(from, line_end(s, from))] + lines_from(s, feed + 1)
    }
}

/// The last `max_lines` of `lines`, or all of them if they are fewer.
pub open spec fn last_of(lines: Seq<Seq<char>>, max_lines: int) -> Seq<Seq<char>> {
    if lines.len() <= max_lines {
        lines
    } else {
        lines.subrange(lines.len() - max_lines, lines.len() as int)
    }
}

/// The last `max_lines` lines of what was read from the end of the log
/// file, with line feeds between them.
pub fn tail_lines(content: &str, max_lines: usize) -> (tail: String)
    ensures
        tail@ == joined_with(last_of(lines_from(content@, 0), max_lines as int), seq!['\n']),
{
    let v = to_chars(content);
    let mut lines: Vec<String> = Vec::new();
    let mut from: usize = 0;
    assert(texts(lines@) =~= Seq::<Seq<char>>::empty());
    while from < v.len()
        invariant
            from <= v@.len(),
            v@ == content@,
            lines_from(v@, 0) == texts(lines@) + lines_from(v@, from as int),
        decreases v@.len() - from,
    {
        let mut e: usize = from;
        while e < v.len() && v[e] != '\n'
            invariant
                from <= e <= v@.len(),
                find_char(v@, '\n', from as int, v@.len() as int) == find_char(
                    v@,
                    '\n',
                    e as int,
                    v@.len() as int,
                ),
            decreases v@.len() - e,
        {
            e += 1;
        }
        let end: usize = if e < v.len() && from < e && v[e - 1] == '\r' {
            e - 1
        } else {
            e
        };
        let ghost before = texts(lines@);
        lines.push(text_of(&v, from, end));
        proof {
            let line = v@.subrange(from as int, end as int);
            let rest = lines_from(v@, e + 1);
            assert(texts(lines@) =~= before.push(line));
            assert(before + (seq![line] + rest) =~= before.push(line) + rest);
        }
        if e == v.len() {
            proof {
                assert(lines_from(v@, e + 1) =~= Seq::<Seq<char>>::empty());
                assert(texts(lines@) + Seq::<Seq<char>>::empty() =~= texts(lines@));
            }
            from = e;
        } else {
            from = e + 1;
        }
    }
    assert(lines_from(v@, from as int) =~= Seq::<Seq<char>>::empty());
    assert(texts(lines@) =~= lines_from(content@, 0));
    let total = lines.len();
    let start: usize = if total <= max_lines {
        0
    } else {
        total - max_lines
    };
    let mut kept: Vec<String> = Vec::new();
    let mut i: usize = start;
    assert(texts(kept@) =~= texts(lines@).subrange(start as int, start as int));
    while i < total
        invariant
            start <= i <= total,
            total == lines@.len(),
            texts(kept@) == texts(lines@).subrange(start as int, i as int),
        decreases total - i,
    {
        let ghost before = texts(kept@);
        kept.push(lines[i].clone());
        assert(texts(kept@) =~= before.push(lines@[i as int]@));
        assert(texts(kept@) =~= texts(lines@).subrange(start as int, i + 1));
        i += 1;
    }
    proof {
        reveal_strlit("\n");
        assert("\n"@ =~= seq!['\n']);
        assert(texts(kept@) =~= last_of(texts(lines@), max_lines as int));
    }
    join(&kept, "\n")
}

/// Whether a log file of `size` bytes is put aside before the next line is written.
pub fn needs_rotation(size: u64) -> (rotate: bool)
    ensures
        rotate == (size > MAX_LOG_SIZE),
{
    size > MAX_LOG_SIZE
}

/// Which part of a log file of `file_len` bytes is read back: where it
/// starts and how long it is. It is the whole file up to `MAX_TAIL_BYTES`,
/// and its end beyond that.
pub fn tail_window(file_len: u64) -> (window: (u64, u64))
    ensures
        window.1 == (if file_len <= MAX_TAIL_BYTES {
            file_len
        } else {
            MAX_TAIL_BYTES
        }),
        window.0 + window.1 == file_len,
{
    let size = if file_len <= MAX_TAIL_BYTES {
        file_len
    } else {
        MAX_TAIL_BYTES
    };
    (file_len - size, size)
}

} // verus!
