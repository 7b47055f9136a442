//! Telling what kind of address a text is: a video, a playlist, a channel,
//! or none of these.

use crate::error::AppError;
use crate::text::has_at;
use crate::text::match_at;
use crate::text::text_of;
use crate::text::to_chars;
use crate::text::trim_range;
use crate::text::trimmed_span;
use crate::types::opt_text;
use vstd::prelude::*;
use vstd::string::StringExecFns;

verus! {

/// The kinds of address.
#[derive(Clone, Copy, Debug, PartialEq, Eq, Structural)]
pub enum UrlType {
    Video,
    Channel,
    Playlist,
    Unknown,
}

/// What is found out about an address.
#[derive(Clone, Debug, PartialEq, Eq)]
pub struct UrlValidation {
    pub valid: bool,
    pub url_type: UrlType,
    pub normalized_url: Option<String>,
}

/// What a `UrlValidation` holds.
pub struct UrlValidationView {
    pub valid: bool,
    pub url_type: UrlType,
    pub normalized_url: Option<Seq<char>>,
}

impl View for UrlValidation {
    type V = UrlValidationView;

    open spec fn view(&self) -> UrlValidationView {
        UrlValidationView {
            valid: self.valid,
            url_type: self.url_type,
            normalized_url: opt_text(self.normalized_url),
        }
    }
}

/// How many characters the identifier of a video has.
pub const VIDEO_ID_LEN: usize = 11;

/// A character of an identifier: a letter of the English alphabet, a
/// digit, an underscore or a hyphen.
pub open spec fn is_id_char(c: char) -> bool {
    ('a' <= c && c <= 'z') || ('A' <= c && c <= 'Z') || ('0' <= c && c <= '9') || c == '_' || c
        == '-'
}

/// A character of the name of a channel: one of an identifier, a dot, a
/// percent sign, or any character from U+0080 to U+FFFF.
pub open spec fn is_handle_char(c: char) -> bool {
    is_id_char(c) || c == '.' || c == '%' || (0x80 <= c as u32 && c as u32 <= 0xffff)
}

/// Where `s` goes on after an address's beginning: `http://` or
/// `https://`, then `www.` or not, then `rest`. The text must begin so.
pub open spec fn after_prefix(s: Seq<char>, rest: Seq<char>) -> Option<int> {
    if has_at(s, "https://www."@ + rest, 0) {
        Some(("https://www."@ + rest).len() as int)
    } else if has_at(s, "https://"@ + rest, 0) {
        Some(("https://"@ + rest).len() as int)
    } else if has_at(s, "http://www."@ + rest, 0) {
        Some(("http://www."@ + rest).len() as int)
    } else if has_at(s, "http://"@ + rest, 0) {
        Some(("http://"@ + rest).len() as int)
    } else {
        None
    }
}

/// Whether `s[from..to]` holds characters of identifiers only.
pub open spec fn all_id_chars(s: Seq<char>, from: int, to: int) -> bool {
    forall|i: int| from <= i < to ==> is_id_char(#[trigger] s[i])
}

/// The end of the run of identifier characters that starts at `from`.
pub open spec fn id_run_end(s: Seq<char>, from: int) -> int
    decreases s.len() - from,
{
    if 0 <= from < s.len() && is_id_char(s[from]) {
        id_run_end(s, from + 1)
    } else {
        from
    }
}

/// The identifier of the video that `s` addresses with the beginning
/// `rest`, if it does: the eleven identifier characters that follow.
pub open spec fn video_id_after(s: Seq<char>, rest: Seq<char>) -> Option<Seq<char>> {
    match after_prefix(s, rest) {
        Some(at) => if at + VIDEO_ID_LEN <= s.len() && all_id_chars(s, at, at + VIDEO_ID_LEN) {
            Some(s.subrange(at, at + VIDEO_ID_LEN))
        } else {
            None
        },
        None => None,
    }
}

/// The identifier of the video that `s` addresses, if it addresses one:
/// as a page to watch, as a short link, or as a short.
pub open spec fn video_id_of(s: Seq<char>) -> Option<Seq<char>> {
    if video_id_after(s, "youtube.com/watch?v="@) is Some {
        video_id_after(s, "youtube.com/watch?v="@)
    } else if video_id_after(s, "youtu.be/"@) is Some {
        video_id_after(s, "youtu.be/"@)
    } else {
        video_id_after(s, "youtube.com/shorts/"@)
    }
}

/// The identifier of the playlist that `s` addresses, if it addresses
/// one: the identifier characters that follow its beginning, one at least.
pub open spec fn playlist_id_of(s: Seq<char>) -> Option<Seq<char>> {
    match after_prefix(s, "youtube.com/playlist?list="@) {
        Some(at) => if id_run_end(s, at) > at {
            Some(s.subrange(at, id_run_end(s, at)))
        } else {
            None
        },
        None => None,
    }
}

/// Whether `s` addresses a channel: by its identifier, by its handle, or
/// by its name.
pub open spec fn is_channel(s: Seq<char>) -> bool {
    ||| (after_prefix(s, "youtube.com/channel/"@) matches Some(at) && at < s.len() && is_id_char(
        s[at],
    ))
    ||| (after_prefix(s, "youtube.com/@"@) matches Some(at) && at < s.len() && is_handle_char(
        s[at],
    ))
    ||| (after_prefix(s, "youtube.com/c/"@) matches Some(at) && at < s.len() && is_handle_char(
        s[at],
    ))
}

/// The address of the page to watch the video `id`.
pub open spec fn watch_url(id: Seq<char>) -> Seq<char> {
    "https://www.youtube.com/watch?v="@ + id
}

/// The address of the page of the playlist `id`.
pub open spec fn playlist_url(id: Seq<char>) -> Seq<char> {
    "https://www.youtube.com/playlist?list="@ + id
}

/// What is found out about the address `url`, white space at its ends
/// left off: a video comes before a playlist, and that before a channel.
/// A video and a playlist are given in their usual form, a channel as it
/// was written.
pub open spec fn validated(url: Seq<char>) -> UrlValidationView {
    let s = trimmed_span(url, 0, url.len() as int);
    if video_id_of(s) is Some {
        UrlValidationView {
            valid: true,
            url_type: UrlType::Video,
            normalized_url: Some(watch_url(video_id_of(s)->0)),
        }
    } else if playlist_id_of(s) is Some {
        UrlValidationView {
            valid: true,
            url_type: UrlType::Playlist,
            normalized_url: Some(playlist_url(playlist_id_of(s)->0)),
        }
    } else if is_channel(s) {
        UrlValidationView { valid: true, url_type: UrlType::Channel, normalized_url: Some(s) }
    } else {
        UrlValidationView { valid: false, url_type: UrlType::Unknown, normalized_url: None }
    }
}

fn id_char(c: char) -> (b: bool)
    ensures
        b == is_id_char(c),
{
    ('a' <= c && c <= 'z') || ('A' <= c && c <= 'Z') || ('0' <= c && c <= '9') || c == '_' || c
        == '-'
}

fn handle_char(c: char) -> (b: bool)
    ensures
        b == is_handle_char(c),
{
    let n: u32 = c as u32;
    id_char(c) || c == '.' || c == '%' || (0x80 <= n && n <= 0xffff)
}

fn begins(s: &Vec<char>, head: &str, rest: &str) -> (r: Option<usize>)
    ensures
        match r {
            Some(n) => has_at(s@, head@ + rest@, 0) && n == (head@ + rest@).len() && n <= s@.len(),
            None => !has_at(s@, head@ + rest@, 0),
        },
{
    let mut pattern = head.to_owned();
    pattern.append(rest);
    let p = to_chars(pattern.as_str());
    if match_at(s, &p, 0) {
        Some(p.len())
    } else {
        None
    }
}

fn prefix_end(s: &Vec<char>, rest: &str) -> (r: Option<usize>)
    ensures
        match r {
            Some(n) => after_prefix(s@, rest@) == Some(n as int) && n <= s@.len(),
            None => after_prefix(s@, rest@) is None,
        },
{
    match begins(s, "https://www.", rest) {
        Some(n) => Some(n),
        None => match begins(s, "https://", rest) {
            Some(n) => Some(n),
            None => match begins(s, "http://www.", rest) {
                Some(n) => Some(n),
                None => begins(s, "http://", rest),
            },
        },
    }
}

fn video_id(s: &Vec<char>, rest: &str) -> (r: Option<String>)
    ensures
        opt_text(r) == video_id_after(s@, rest@),
{
    match prefix_end(s, rest) {
        Some(at) => {
            if s.len() - at < VIDEO_ID_LEN {
                return None;
            }
            let end: usize = at + VIDEO_ID_LEN;
            let mut i: usize = at;
            while i < end
                invariant
                    at <= i <= end <= s@.len(),
                    end == at + VIDEO_ID_LEN,
                    after_prefix(s@, rest@) == Some(at as int),
                    all_id_chars(s@, at as int, i as int),
                decreases end - i,
            {
                if !id_char(s[i]) {
                    return None;
                }
                i += 1;
            }
            Some(text_of(s, at, end))
        },
        None => None,
    }
}

/// The identifier of the playlist that `url` addresses, if it addresses one.
pub fn playlist_id_in(url: &str) -> (r: Option<String>)
    ensures
        opt_text(r) == playlist_id_of(url@),
{
    playlist_id(&to_chars(url))
}

fn playlist_id(s: &Vec<char>) -> (r: Option<String>)
    ensures
        opt_text(r) == playlist_id_of(s@),
{
    match prefix_end(s, "youtube.com/playlist?list=") {
        Some(at) => {
            let mut end: usize = at;
            while end < s.len() && id_char(s[end])
                invariant
                    at <= end <= s@.len(),
                    id_run_end(s@, at as int) == id_run_end(s@, end as int),
                decreases s@.len() - end,
            {
                end += 1;
            }
            if end > at {
                Some(text_of(s, at, end))
            } else {
                None
            }
        },
        None => None,
    }
}

fn channel(s: &Vec<char>) -> (b: bool)
    ensures
        b == is_channel(s@),
{
    let by_id = match prefix_end(s, "youtube.com/channel/") {
        Some(at) => at < s.len() && id_char(s[at]),
        None => false,
    };
    let by_handle = match prefix_end(s, "youtube.com/@") {
        Some(at) => at < s.len() && handle_char(s[at]),
        None => false,
    };
    let by_name = match prefix_end(s, "youtube.com/c/") {
        Some(at) => at < s.len() && handle_char(s[at]),
        None => false,
    };
    by_id || by_handle || by_name
}

/// Finds out what kind of address `url` is; see `validated`. It never fails.
pub fn validate_url(url: String) -> (r: Result<UrlValidation, AppError>)
    ensures
        r matches Ok(v) && v@ == validated(url@),
{
    let all = to_chars(url.as_str());
    let (a, b) = trim_range(&all, 0, all.len());
    let trimmed = text_of(&all, a, b);
    let s = to_chars(trimmed.as_str());
    let watch = video_id(&s, "youtube.com/watch?v=");
    let video = if watch.is_some() {
        watch
    } else {
        let short = video_id(&s, "youtu.be/");
        if short.is_some() {
            short
        } else {
            video_id(&s, "youtube.com/shorts/")
        }
    };
    if let Some(id) = video {
        let mut normalized = "https://www.youtube.com/watch?v=".to_owned();
        normalized.append(id.as_str());
        return Ok(
            UrlValidation {
                valid: true,
                url_type: UrlType::Video,
                normalized_url: Some(normalized),
            },
        );
    }
    if let Some(id) = playlist_id(&s) {
        let mut normalized = "https://www.youtube.com/playlist?list=".to_owned();
        normalized.append(id.as_str());
        return Ok(
            UrlValidation {
                valid: true,
                url_type: UrlType::Playlist,
                normalized_url: Some(normalized),
            },
        );
    }
    if channel(&s) {
        return Ok(
            UrlValidation { valid: true, url_type: UrlType::Channel, normalized_url: Some(trimmed) },
        );
    }
    Ok(UrlValidation { valid: false, url_type: UrlType::Unknown, normalized_url: None })
}

} // verus!
