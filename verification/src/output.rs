//! What the worker process prints: the tail of its error stream, the file
//! that it announces, and the message for a run that failed.

use crate::text::contains;
use crate::text::drop_space_back;
use crate::text::has_at;
use crate::text::match_at;
use crate::text::occurs;
use crate::text::push_signed_decimal;
use crate::text::signed_decimal_text;
use crate::text::space;
use crate::text::text_of;
use crate::text::to_chars;
use crate::text::trim_end_index;
use crate::text::trim_range;
use crate::text::trim_start_index;
use crate::text::trimmed_span;
use crate::types::opt_text;
use vstd::prelude::*;
use vstd::string::StringExecFns;
use vstd::string::StringSliceAdditionalSpecFns;
use vstd::utf8::encode_utf8;
use vstd::utf8::encode_utf8_valid_utf8;
use vstd::utf8::is_char_boundary;
use vstd::utf8::is_char_boundary_start_end_of_seq;

verus! {

/// How many bytes of the worker's error stream are kept.
pub const STDERR_BUFFER_LIMIT_BYTES: usize = 65536;

/// `line` added to `text` as a new line.
pub open spec fn joined(text: Seq<char>, line: Seq<char>) -> Seq<char> {
    if text.len() == 0 {
        line
    } else {
        text + seq!['\n'] + line
    }
}

/// The first place at or after `from` where a character of `bytes` starts,
/// or the end of `bytes`.
pub open spec fn first_boundary(bytes: Seq<u8>, from: int) -> int
    decreases bytes.len() - from,
{
    if from >= bytes.len() || is_char_boundary(bytes, from) {
        from
    } else {
        first_boundary(bytes, from + 1)
    }
}

/// The bytes that are kept of `bytes` under a limit of `max_bytes`: all of
/// them if they fit, else the last `max_bytes`, less what it takes to start
/// at a whole character.
pub open spec fn kept_tail(bytes: Seq<u8>, max_bytes: int) -> Seq<u8> {
    if bytes.len() <= max_bytes {
        bytes
    } else {
        bytes.subrange(first_boundary(bytes, bytes.len() - max_bytes), bytes.len() as int)
    }
}

/// Adds `line` to `buffer` as a new line and then drops bytes from the
/// front, oldest first, until at most `max_bytes` are left. The cut never
/// falls inside a character.
pub fn append_limited(buffer: &mut String, line: &str, max_bytes: usize)
    ensures
        final(buffer)@.len() <= joined(old(buffer)@, line@).len(),
        encode_utf8(final(buffer)@) == kept_tail(
            encode_utf8(joined(old(buffer)@, line@)),
            max_bytes as int,
        ),
        encode_utf8(joined(old(buffer)@, line@)).len() <= max_bytes ==> final(buffer)@ == joined(
            old(buffer)@,
            line@,
        ),
        encode_utf8(final(buffer)@).len() <= max_bytes,
{
    if !buffer.as_str().is_empty() {
        proof {
            reveal_strlit("\n");
            assert("\n"@ =~= seq!['\n']);
        }
        buffer.append("\n");
    }
    buffer.append(line);
    assert(buffer@ =~= joined(old(buffer)@, line@));
    let len = buffer.as_str().as_bytes().len();
    let ghost full = buffer@;
    let ghost bytes = encode_utf8(full);
    proof {
        encode_utf8_valid_utf8(full);
        is_char_boundary_start_end_of_seq(bytes);
    }
    if len > max_bytes {
        let overflow = len - max_bytes;
        let mut cut = overflow;
        while !buffer.as_str().is_char_boundary(cut)
            invariant
                overflow <= cut <= len,
                len == bytes.len(),
                buffer@ == full,
                bytes == encode_utf8(full),
                is_char_boundary(bytes, len as int),
                first_boundary(bytes, overflow as int) == first_boundary(bytes, cut as int),
            decreases len - cut,
        {
            cut += 1;
        }
        let tail = keep_from(buffer.as_str(), cut);
        *buffer = tail;
        proof {
            lemma_shorter_text(buffer@, full, cut as int);
        }
    }
}

/// The words before the file that the worker names when it joins streams.
pub open spec fn merger_prefix() -> Seq<char> {
    "[Merger] Merging formats into \""@
}

/// The words before the file that the worker names when it starts to download.
pub open spec fn download_prefix() -> Seq<char> {
    "[download] Destination: "@
}

/// The words before the file that the worker names when it extracts the sound.
pub open spec fn audio_prefix() -> Seq<char> {
    "[ExtractAudio] Destination: "@
}

/// The file that a line of the worker's output announces, if it announces
/// one. White space at the end of the line does not count. A joined file
/// stands in quotes; the others run to the end of the line.
pub open spec fn announced_path(line: Seq<char>) -> Option<Seq<char>> {
    let end = drop_space_back(line, 0, line.len() as int);
    let t = line.subrange(0, end);
    if has_at(t, merger_prefix(), 0) {
        if end > merger_prefix().len() && t[end - 1] == '"' {
            Some(t.subrange(merger_prefix().len() as int, end - 1))
        } else {
            None
        }
    } else if has_at(t, download_prefix(), 0) {
        Some(trimmed_span(t, download_prefix().len() as int, end))
    } else if has_at(t, audio_prefix(), 0) {
        Some(trimmed_span(t, audio_prefix().len() as int, end))
    } else {
        None
    }
}

/// Reads the file that a line of the worker's output announces, if any.
pub fn parse_destination_line(line: &str) -> (r: Option<String>)
    ensures
        opt_text(r) == announced_path(line@),
{
    let mut v = to_chars(line);
    let end = trim_end_index(&v, 0, v.len());
    v.truncate(end);
    assert(v@ =~= line@.subrange(0, end as int));
    let merger = to_chars("[Merger] Merging formats into \"");
    let download = to_chars("[download] Destination: ");
    let audio = to_chars("[ExtractAudio] Destination: ");
    if match_at(&v, &merger, 0) {
        if end > merger.len() && v[end - 1] == '"' {
            Some(text_of(&v, merger.len(), end - 1))
        } else {
            None
        }
    } else if match_at(&v, &download, 0) {
        let (a, b) = trim_range(&v, download.len(), end);
        Some(text_of(&v, a, b))
    } else if match_at(&v, &audio, 0) {
        let (a, b) = trim_range(&v, audio.len(), end);
        Some(text_of(&v, a, b))
    } else {
        None
    }
}

/// Where the line that ends at `end` starts.
pub open spec fn line_start(s: Seq<char>, end: int) -> int
    decreases end,
{
    if end > 0 && s[end - 1] != '\n' {
        line_start(s, end - 1)
    } else {
        end
    }
}

/// The bounds of the last line of `s[..end]` that holds more than white
/// space, where `end` is the end of a line.
pub open spec fn last_inked_line(s: Seq<char>, end: int) -> Option<(int, int)>
    decreases end,
{
    let a = line_start(s, end);
    if trim_start_index(s, a, end) < end {
        Some((a, end))
    } else if a <= 0 || a > end {
        None
    } else {
        last_inked_line(s, a - 1)
    }
}

/// The text of the line `s[a..end]`: a carriage return before the line
/// feed that ends it does not belong to it.
pub open spec fn line_text(s: Seq<char>, a: int, end: int) -> Seq<char> {
    if end < s.len() && a < end && s[end - 1] == '\r' {
        s.subrange(a, end - 1)
    } else {
        s.subrange(a, end)
    }
}

/// The message for a run that failed with nothing more to go on.
pub open spec fn generic_failure() -> Seq<char> {
    "다운로드 중 오류가 발생했습니다."@
}

/// The message for a run that could not read the browser's cookies.
pub open spec fn cookie_failure() -> Seq<char> {
    "브라우저 쿠키에 접근할 수 없습니다. 브라우저를 완전히 종료하거나, Firefox 쿠키를 사용하세요."@
}

/// The message for a run that failed on the network.
pub open spec fn network_failure() -> Seq<char> {
    "네트워크 연결 문제입니다. 인터넷 연결을 확인하세요."@
}

/// The message for a run that failed on the encoding of the console.
pub open spec fn encoding_failure() -> Seq<char> {
    "인코딩 오류로 다운로드에 실패했습니다.\n\nWindows 설정 → 시간 및 언어 → 관리 언어 설정 → 시스템 로캘 변경 → 'Beta: 세계 언어 지원을 위해 Unicode UTF-8 사용'을 활성화한 후 재시작하세요."@
}

/// The message for a run whose process ended without an exit code.
pub open spec fn unexpected_end() -> Seq<char> {
    "다운로드 프로세스가 예기치 않게 종료되었습니다."@
}

/// The words before the exit code in the message for any other failure.
pub open spec fn exit_code_prefix() -> Seq<char> {
    "yt-dlp exited with code: "@
}

/// The captured error stream as it is added to a message.
pub open spec fn stderr_note(stderr: Seq<char>) -> Seq<char> {
    "\n\n[stderr]: "@ + stderr
}

/// Whether the error stream tells of trouble with the console's encoding.
pub open spec fn encoding_trouble(stderr: Seq<char>) -> bool {
    occurs(stderr, "cp949"@) || occurs(stderr, "cp932"@) || occurs(stderr, "TextIOWrapper"@)
        || occurs(stderr, "Errno 22"@) || occurs(stderr, "UnicodeEncodeError"@)
}

/// The last line of the error stream that holds more than white space, or
/// the generic message if there is none.
pub open spec fn last_line_or_generic(stderr: Seq<char>) -> Seq<char> {
    match last_inked_line(stderr, stderr.len() as int) {
        Some((a, end)) => line_text(stderr, a, end),
        None => generic_failure(),
    }
}

/// The message for a run whose process ended with `exit_code` and left
/// `stderr` on its error stream.
pub open spec fn failure_text(exit_code: Option<i32>, stderr: Seq<char>) -> Seq<char> {
    match exit_code {
        Some(code) => {
            if code == 1 {
                if occurs(stderr, "Could not copy"@) && occurs(stderr, "cookie"@) {
                    cookie_failure()
                } else if stderr.len() == 0 {
                    generic_failure()
                } else {
                    last_line_or_generic(stderr) + stderr_note(stderr)
                }
            } else if code == 2 {
                network_failure() + stderr_note(stderr)
            } else if code == 120 && encoding_trouble(stderr) {
                encoding_failure() + stderr_note(stderr)
            } else {
                exit_code_prefix() + signed_decimal_text(code as int) + stderr_note(stderr)
            }
        },
        None => unexpected_end() + stderr_note(stderr),
    }
}

/// Where the line that ends at `end` starts.
pub(crate) fn find_line_start(v: &Vec<char>, end: usize) -> (a: usize)
    requires
        end <= v@.len(),
    ensures
        a == line_start(v@, end as int),
        a <= end,
{
    let mut a: usize = end;
    while a > 0 && v[a - 1] != '\n'
        invariant
            a <= end <= v@.len(),
            line_start(v@, end as int) == line_start(v@, a as int),
        decreases a,
    {
        a -= 1;
    }
    a
}

fn has_ink(v: &Vec<char>, from: usize, to: usize) -> (b: bool)
    requires
        from <= to <= v@.len(),
    ensures
        b == (trim_start_index(v@, from as int, to as int) < to),
{
    let mut i: usize = from;
    while i < to && space(v[i])
        invariant
            from <= i <= to <= v@.len(),
            trim_start_index(v@, from as int, to as int) == trim_start_index(
                v@,
                i as int,
                to as int,
            ),
        decreases to - i,
    {
        i += 1;
    }
    i < to
}

fn find_last_inked_line(v: &Vec<char>) -> (r: Option<(usize, usize)>)
    ensures
        match r {
            Some((a, end)) => last_inked_line(v@, v@.len() as int) == Some((a as int, end as int))
                && a <= end <= v@.len(),
            None => last_inked_line(v@, v@.len() as int) is None,
        },
{
    let mut end: usize = v.len();
    loop
        invariant
            end <= v@.len(),
            last_inked_line(v@, v@.len() as int) == last_inked_line(v@, end as int),
        decreases end,
    {
        let a = find_line_start(v, end);
        if has_ink(v, a, end) {
            return Some((a, end));
        }
        if a == 0 {
            return None;
        }
        end = a - 1;
    }
}

fn last_line_text(v: &Vec<char>) -> (t: String)
    ensures
        t@ == last_line_or_generic(v@),
{
    match find_last_inked_line(v) {
        Some((a, end)) => {
            if end < v.len() && a < end && v[end - 1] == '\r' {
                text_of(v, a, end - 1)
            } else {
                text_of(v, a, end)
            }
        },
        None => "다운로드 중 오류가 발생했습니다.".to_owned(),
    }
}

fn has_encoding_trouble(v: &Vec<char>) -> (b: bool)
    ensures
        b == encoding_trouble(v@),
{
    contains(v, &to_chars("cp949")) || contains(v, &to_chars("cp932")) || contains(
        v,
        &to_chars("TextIOWrapper"),
    ) || contains(v, &to_chars("Errno 22")) || contains(v, &to_chars("UnicodeEncodeError"))
}

fn with_note(head: String, stderr: &str) -> (m: String)
    ensures
        m@ == head@ + stderr_note(stderr@),
{
    let mut m = head;
    m.append("\n\n[stderr]: ");
    m.append(stderr);
    assert(m@ =~= head@ + stderr_note(stderr@));
    m
}

/// The message that is stored and shown for a run that failed: by the exit
/// code of the process, with the captured error stream added.
pub fn failure_message(exit_code: Option<i32>, stderr: &str) -> (m: String)
    ensures
        m@ == failure_text(exit_code, stderr@),
{
    match exit_code {
        Some(code) => {
            if code == 1 {
                let v = to_chars(stderr);
                if contains(&v, &to_chars("Could not copy")) && contains(&v, &to_chars("cookie")) {
                    "브라우저 쿠키에 접근할 수 없습니다. 브라우저를 완전히 종료하거나, Firefox 쿠키를 사용하세요.".to_owned()
                } else if v.len() == 0 {
                    "다운로드 중 오류가 발생했습니다.".to_owned()
                } else {
                    with_note(last_line_text(&v), stderr)
                }
            } else if code == 2 {
                with_note("네트워크 연결 문제입니다. 인터넷 연결을 확인하세요.".to_owned(), stderr)
            } else if code == 120 && has_encoding_trouble(&to_chars(stderr)) {
                with_note(
                    "인코딩 오류로 다운로드에 실패했습니다.\n\nWindows 설정 → 시간 및 언어 → 관리 언어 설정 → 시스템 로캘 변경 → 'Beta: 세계 언어 지원을 위해 Unicode UTF-8 사용'을 활성화한 후 재시작하세요.".to_owned(),
                    stderr,
                )
            } else {
                let mut head = "yt-dlp exited with code: ".to_owned();
                push_signed_decimal(&mut head, code as i64);
                with_note(head, stderr)
            }
        },
        None => with_note("다운로드 프로세스가 예기치 않게 종료되었습니다.".to_owned(), stderr),
    }
}

/// The text of `s` from byte `cut` on, where a character starts at `cut`.
fn keep_from(s: &str, cut: usize) -> (tail: String)
    requires
        is_char_boundary(s.spec_bytes(), cut as int),
        cut <= s.spec_bytes().len(),
    ensures
        encode_utf8(tail@) == s.spec_bytes().subrange(cut as int, s.spec_bytes().len() as int),
{
    let (_, rest) = s.split_at(cut);
    rest.to_owned()
}

/// A text whose bytes are a tail of the bytes of another has no more
/// characters than the other.
proof fn lemma_shorter_text(tail: Seq<char>, full: Seq<char>, cut: int)
    requires
        0 <= cut <= encode_utf8(full).len(),
        is_char_boundary(encode_utf8(full), cut),
        encode_utf8(tail) == encode_utf8(full).subrange(cut, encode_utf8(full).len() as int),
    ensures
        tail.len() <= full.len(),
{
    let bytes = encode_utf8(full);
    encode_utf8_valid_utf8(full);
    vstd::utf8::encode_utf8_decode_utf8(full);
    vstd::utf8::encode_utf8_decode_utf8(tail);
    vstd::utf8::decode_utf8_split(bytes, cut);
    assert(bytes =~= bytes.subrange(0, cut) + bytes.subrange(cut, bytes.len() as int));
}

} // verus!
