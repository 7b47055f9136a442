//! What the worker tells of a video or a playlist before anything is
//! downloaded: the records made of its answer, and the errors made of
//! its complaints.

use crate::error::AppError;
use crate::text::contains;
use crate::text::copy_opt_text;
use crate::text::decimal_text;
use crate::text::has_at;
use crate::text::match_at;
use crate::text::occurs;
use crate::text::push_decimal;
use crate::text::text_of;
use crate::text::to_chars;
use crate::types::opt_text;
use crate::types::text_or;
use crate::validation::playlist_id_in;
use crate::validation::playlist_id_of;
use crate::validation::watch_url;
use vstd::prelude::*;
use vstd::string::StringExecFns;

verus! {

/// One of the forms in which a video can be had.
#[derive(Clone, Debug, PartialEq, Eq)]
pub struct FormatInfo {
    pub format_id: String,
    pub ext: String,
    pub resolution: Option<String>,
    pub quality_label: Option<String>,
    pub filesize: Option<u64>,
    pub vcodec: Option<String>,
    pub acodec: Option<String>,
    pub has_video: bool,
    pub has_audio: bool,
}

/// What is known of a video.
#[derive(Clone, Debug, PartialEq, Eq)]
pub struct VideoInfo {
    pub url: String,
    pub video_id: String,
    pub title: String,
    pub thumbnail: String,
    pub duration: u64,
    pub upload_date: String,
    pub channel: String,
    pub channel_url: String,
    pub formats: Vec<FormatInfo>,
    pub filesize_approx: Option<u64>,
}

/// One video of a playlist.
#[derive(Clone, Debug, PartialEq, Eq)]
pub struct PlaylistEntry {
    pub url: String,
    pub video_id: String,
    pub title: Option<String>,
    pub duration: Option<u64>,
    pub thumbnail: Option<String>,
}

/// What is known of a playlist, with one page of its videos.
#[derive(Clone, Debug, PartialEq, Eq)]
pub struct PlaylistResult {
    pub playlist_id: String,
    pub title: String,
    pub url: String,
    pub video_count: Option<u64>,
    pub channel_name: Option<String>,
    pub entries: Vec<PlaylistEntry>,
}

/// A form of a video as the worker tells of it: each field may be missing.
#[derive(Clone, Debug, PartialEq, Eq)]
pub struct RawFormat {
    pub format_id: Option<String>,
    pub ext: Option<String>,
    pub resolution: Option<String>,
    pub format_note: Option<String>,
    pub filesize: Option<u64>,
    pub vcodec: Option<String>,
    pub acodec: Option<String>,
}

/// A video as the worker tells of it: each field may be missing.
#[derive(Clone, Debug, PartialEq, Eq)]
pub struct RawVideo {
    pub id: Option<String>,
    pub title: Option<String>,
    pub thumbnail: Option<String>,
    pub duration: Option<u64>,
    pub upload_date: Option<String>,
    pub channel: Option<String>,
    pub uploader: Option<String>,
    pub channel_url: Option<String>,
    pub uploader_url: Option<String>,
    pub webpage_url: Option<String>,
    pub filesize_approx: Option<u64>,
    pub formats: Option<Vec<RawFormat>>,
}

/// A video of a playlist as the worker tells of it: each field may be missing.
#[derive(Clone, Debug, PartialEq, Eq)]
pub struct RawEntry {
    pub playlist_id: Option<String>,
    pub playlist_title: Option<String>,
    pub playlist: Option<String>,
    pub channel: Option<String>,
    pub playlist_uploader: Option<String>,
    pub uploader: Option<String>,
    pub playlist_count: Option<u64>,
    pub id: Option<String>,
    pub url: Option<String>,
    pub title: Option<String>,
    pub duration: Option<u64>,
    pub thumbnail: Option<String>,
    /// The address of the first of the entry's thumbnails.
    pub first_thumbnail: Option<String>,
}

/// The first of two values that is there.
pub open spec fn first_of(a: Option<String>, b: Option<String>) -> Option<String> {
    if a is Some {
        a
    } else {
        b
    }
}

fn either(a: &Option<String>, b: &Option<String>) -> (r: Option<String>)
    ensures
        r == first_of(*a, *b),
{
    match a {
        Some(s) => Some(s.clone()),
        None => copy_opt_text(b),
    }
}

fn or_text(found: &Option<String>, other: &str) -> (r: String)
    ensures
        r@ == text_or(*found, other@),
{
    match found {
        Some(s) => s.clone(),
        None => other.to_owned(),
    }
}

/// Whether a form is told of well enough to be offered: with its
/// identifier and the ending of its file.
pub open spec fn is_usable(f: RawFormat) -> bool {
    f.format_id is Some && f.ext is Some
}

/// Whether a codec is there: it is, unless the worker says `none`.
pub open spec fn has_stream(codec: Option<String>) -> bool {
    opt_text(codec) != Some("none"@)
}

/// The form that is offered for a usable form told of by the worker.
pub open spec fn format_of(f: RawFormat) -> FormatInfo {
    FormatInfo {
        format_id: f.format_id->0,
        ext: f.ext->0,
        resolution: f.resolution,
        quality_label: f.format_note,
        filesize: f.filesize,
        vcodec: f.vcodec,
        acodec: f.acodec,
        has_video: has_stream(f.vcodec),
        has_audio: has_stream(f.acodec),
    }
}

/// The forms that are offered: those of `raw` that are usable, in their order.
pub open spec fn formats_of(raw: Seq<RawFormat>) -> Seq<FormatInfo> {
    raw.filter(|f: RawFormat| is_usable(f)).map_values(|f: RawFormat| format_of(f))
}

fn stream(codec: &Option<String>) -> (b: bool)
    ensures
        b == has_stream(*codec),
{
    match codec {
        Some(c) => !crate::text::same_text(c.as_str(), "none"),
        None => true,
    }
}

fn usable_formats(raw: &Vec<RawFormat>) -> (out: Vec<FormatInfo>)
    ensures
        out@ == formats_of(raw@),
{
    let ghost pred = |f: RawFormat| is_usable(f);
    let mut out: Vec<FormatInfo> = Vec::new();
    let mut i: usize = 0;
    assert(formats_of(raw@.take(0)) =~= Seq::<FormatInfo>::empty()) by {
        reveal(Seq::filter);
    }
    while i < raw.len()
        invariant
            i <= raw@.len(),
            pred == |f: RawFormat| is_usable(f),
            out@ == formats_of(raw@.take(i as int)),
        decreases raw@.len() - i,
    {
        proof {
            assert(raw@.take(i + 1) =~= raw@.take(i as int).push(raw@[i as int]));
            Seq::lemma_filter_push(raw@.take(i as int), raw@[i as int], pred);
        }
        let f = &raw[i];
        match (&f.format_id, &f.ext) {
            (Some(format_id), Some(ext)) => {
                let ghost before = out@;
                out.push(
                    FormatInfo {
                        format_id: format_id.clone(),
                        ext: ext.clone(),
                        resolution: copy_opt_text(&f.resolution),
                        quality_label: copy_opt_text(&f.format_note),
                        filesize: f.filesize,
                        vcodec: copy_opt_text(&f.vcodec),
                        acodec: copy_opt_text(&f.acodec),
                        has_video: stream(&f.vcodec),
                        has_audio: stream(&f.acodec),
                    },
                );
                assert(out@ =~= before.push(format_of(raw@[i as int])));
                assert(out@ =~= formats_of(raw@.take(i + 1)));
            },
            _ => {
                assert(out@ =~= formats_of(raw@.take(i + 1)));
            },
        }
        i += 1;
    }
    assert(raw@.take(i as int) =~= raw@);
    out
}

/// The text of the error for a video told of without its identifier.
pub open spec fn missing_id_text() -> Seq<char> {
    "Missing video id"@
}

/// The text of the error for a video told of without its title.
pub open spec fn missing_title_text() -> Seq<char> {
    "Missing title"@
}

/// The text of the error for a video told of without its forms.
pub open spec fn missing_formats_text() -> Seq<char> {
    "Missing formats array"@
}

/// Makes the record of a video from what the worker told of it. The
/// identifier, the title and the list of forms must be there; what else
/// is missing is left empty. `url` is the address that was asked for; it
/// stands in where the worker names none.
pub fn video_info(raw: &RawVideo, url: &str) -> (r: Result<VideoInfo, AppError>)
    ensures
        r is Ok <==> raw.id is Some && raw.title is Some && raw.formats is Some,
        match r {
            Ok(v) => {
                &&& v.video_id == raw.id->0
                &&& v.title == raw.title->0
                &&& v.url@ == text_or(raw.webpage_url, url@)
                &&& v.thumbnail@ == text_or(raw.thumbnail, ""@)
                &&& v.duration == (match raw.duration {
                    Some(d) => d,
                    None => 0,
                })
                &&& v.upload_date@ == text_or(raw.upload_date, ""@)
                &&& v.channel@ == text_or(first_of(raw.channel, raw.uploader), ""@)
                &&& v.channel_url@ == text_or(first_of(raw.channel_url, raw.uploader_url), ""@)
                &&& v.formats@ == formats_of(raw.formats->0@)
                &&& v.filesize_approx == raw.filesize_approx
            },
            Err(e) => {
                &&& e matches AppError::MetadataError(m)
                &&& m@ == (if raw.id is None {
                    missing_id_text()
                } else if raw.title is None {
                    missing_title_text()
                } else {
                    missing_formats_text()
                })
            },
        },
{
    let video_id = match &raw.id {
        Some(id) => id.clone(),
        None => {
            return Err(AppError::MetadataError("Missing video id".to_owned()));
        },
    };
    let title = match &raw.title {
        Some(t) => t.clone(),
        None => {
            return Err(AppError::MetadataError("Missing title".to_owned()));
        },
    };
    let formats = match &raw.formats {
        Some(f) => usable_formats(f),
        None => {
            return Err(AppError::MetadataError("Missing formats array".to_owned()));
        },
    };
    Ok(
        VideoInfo {
            url: or_text(&raw.webpage_url, url),
            video_id,
            title,
            thumbnail: or_text(&raw.thumbnail, ""),
            duration: match raw.duration {
                Some(d) => d,
                None => 0,
            },
            upload_date: or_text(&raw.upload_date, ""),
            channel: or_text(&either(&raw.channel, &raw.uploader), ""),
            channel_url: or_text(&either(&raw.channel_url, &raw.uploader_url), ""),
            formats,
            filesize_approx: raw.filesize_approx,
        },
    )
}

/// The page size from which on a whole playlist is asked for at once.
pub const WHOLE_PLAYLIST: u32 = 99999;

/// The range of items of a playlist that makes page `page`, as the
/// worker takes it: the first and the last item, counted from one, with
/// a colon between them. For a whole playlist no range is given.
pub open spec fn item_range_text(page: u32, page_size: u32) -> Option<Seq<char>> {
    if page_size < WHOLE_PLAYLIST {
        Some(
            decimal_text((page * page_size + 1) as nat) + seq![':'] + decimal_text(
                (page * page_size + page_size) as nat,
            ),
        )
    } else {
        None
    }
}

/// The range of items that makes page `page`; see `item_range_text`.
pub fn item_range(page: u32, page_size: u32) -> (r: Option<String>)
    ensures
        opt_text(r) == item_range_text(page, page_size),
{
    if page_size >= WHOLE_PLAYLIST {
        return None;
    }
    assert((page as u64) * (page_size as u64) <= 0xffff_ffff * 99999) by (nonlinear_arith)
        requires
            page <= 0xffff_ffff,
            page_size <= 99999,
    ;
    let before: u64 = (page as u64) * (page_size as u64);
    let mut text = String::new();
    push_decimal(&mut text, before + 1);
    crate::text::push_char(&mut text, ':');
    push_decimal(&mut text, before + page_size as u64);
    assert(text@ =~= item_range_text(page, page_size)->0);
    Some(text)
}

/// The identifier of a video of a playlist: its own, else its address,
/// else none.
pub open spec fn entry_id(e: RawEntry) -> Seq<char> {
    text_or(first_of(e.id, e.url), ""@)
}

/// Whether an entry names a video at all.
pub open spec fn names_video(e: RawEntry) -> bool {
    entry_id(e).len() > 0
}

/// The address of a video of a playlist: its identifier where that is an
/// address already, else the page to watch it.
pub open spec fn entry_url(e: RawEntry) -> Seq<char> {
    if has_at(entry_id(e), "http"@, 0) {
        entry_id(e)
    } else {
        watch_url(entry_id(e))
    }
}

/// Whether `entry` is what is offered for `raw`.
pub open spec fn is_entry_of(entry: PlaylistEntry, raw: RawEntry) -> bool {
    &&& entry.video_id@ == entry_id(raw)
    &&& entry.url@ == entry_url(raw)
    &&& entry.title == raw.title
    &&& entry.duration == raw.duration
    &&& entry.thumbnail == first_of(raw.thumbnail, raw.first_thumbnail)
}

/// Whether `entries` is what is offered for `raw`: one entry for each of
/// `raw` that names a video, in their order.
pub open spec fn are_entries_of(entries: Seq<PlaylistEntry>, raw: Seq<RawEntry>) -> bool {
    let named = raw.filter(|e: RawEntry| names_video(e));
    &&& entries.len() == named.len()
    &&& forall|k: int| 0 <= k < entries.len() ==> is_entry_of(#[trigger] entries[k], named[k])
}

fn entry_of(raw: &RawEntry) -> (r: Option<PlaylistEntry>)
    ensures
        r is Some <==> names_video(*raw),
        r matches Some(e) ==> is_entry_of(e, *raw),
{
    proof {
        reveal_strlit("");
    }
    let video_id = or_text(&either(&raw.id, &raw.url), "");
    let chars = to_chars(video_id.as_str());
    if chars.len() == 0 {
        return None;
    }
    let url = if match_at(&chars, &to_chars("http"), 0) {
        video_id.clone()
    } else {
        let mut u = "https://www.youtube.com/watch?v=".to_owned();
        u.append(video_id.as_str());
        u
    };
    Some(
        PlaylistEntry {
            url,
            video_id,
            title: copy_opt_text(&raw.title),
            duration: raw.duration,
            thumbnail: either(&raw.thumbnail, &raw.first_thumbnail),
        },
    )
}

/// The text of the error for a playlist whose first page holds nothing.
pub open spec fn no_entries_text() -> Seq<char> {
    "No entries found in playlist"@
}

/// The number of videos of a playlist: what the worker says, else the
/// number of entries where the whole playlist was asked for, else unknown.
pub open spec fn video_count_of(first: RawEntry, entries: nat, page_size: u32) -> Option<u64> {
    if first.playlist_count is Some {
        first.playlist_count
    } else if page_size >= WHOLE_PLAYLIST {
        Some(entries as u64)
    } else {
        None
    }
}

/// Makes the record of one page of a playlist from the entries that the
/// worker told of. What is known of the playlist itself is taken from the
/// first entry; its identifier, if that entry has none, from the address
/// `url` that was asked for. An empty first page is an error; an empty
/// later page is the end of the playlist, and its record is empty.
pub fn playlist_result(entries: &Vec<RawEntry>, url: &str, page: u32, page_size: u32) -> (r: Result<
    PlaylistResult,
    AppError,
>)
    ensures
        r is Ok <==> entries@.len() > 0 || page > 0,
        match r {
            Ok(p) => {
                &&& p.url@ == url@
                &&& are_entries_of(p.entries@, entries@)
                &&& entries@.len() == 0 ==> p.playlist_id@ == ""@ && p.title@ == ""@
                    && p.video_count is None && p.channel_name is None
                &&& entries@.len() > 0 ==> {
                    let first = entries@[0];
                    &&& p.playlist_id@ == (match first.playlist_id {
                        Some(id) => id@,
                        None => match playlist_id_of(url@) {
                            Some(id) => id,
                            None => ""@,
                        },
                    })
                    &&& p.title@ == text_or(
                        first_of(first.playlist_title, first.playlist),
                        "Unknown Playlist"@,
                    )
                    &&& p.channel_name == first_of(
                        first.channel,
                        first_of(first.playlist_uploader, first.uploader),
                    )
                    &&& p.video_count == video_count_of(first, entries@.len(), page_size)
                }
            },
            Err(e) => e matches AppError::MetadataError(m) && m@ == no_entries_text(),
        },
{
    proof {
        reveal_strlit("");
    }
    let ghost all = entries@;
    let ghost pred = |e: RawEntry| names_video(e);
    let count = entries.len();
    if count == 0 {
        if page == 0 {
            return Err(AppError::MetadataError("No entries found in playlist".to_owned()));
        }
        assert(all.filter(pred) =~= Seq::<RawEntry>::empty()) by {
            reveal(Seq::filter);
        }
        return Ok(
            PlaylistResult {
                playlist_id: String::new(),
                title: String::new(),
                url: url.to_owned(),
                video_count: None,
                channel_name: None,
                entries: Vec::new(),
            },
        );
    }
    let first = &entries[0];
    let playlist_id = match &first.playlist_id {
        Some(id) => id.clone(),
        None => match playlist_id_in(url) {
            Some(id) => id,
            None => String::new(),
        },
    };
    let title = or_text(&either(&first.playlist_title, &first.playlist), "Unknown Playlist");
    let channel_name = either(&first.channel, &either(&first.playlist_uploader, &first.uploader));
    let video_count = match first.playlist_count {
        Some(c) => Some(c),
        None => if page_size >= WHOLE_PLAYLIST {
            Some(count as u64)
        } else {
            None
        },
    };
    let mut list: Vec<PlaylistEntry> = Vec::new();
    let mut i: usize = 0;
    assert(all.take(0).filter(pred) =~= Seq::<RawEntry>::empty()) by {
        reveal(Seq::filter);
    }
    while i < entries.len()
        invariant
            i <= entries@.len(),
            all == entries@,
            pred == |e: RawEntry| names_video(e),
            are_entries_of(list@, all.take(i as int)),
        decreases entries@.len() - i,
    {
        proof {
            assert(all.take(i + 1) =~= all.take(i as int).push(all[i as int]));
            Seq::lemma_filter_push(all.take(i as int), all[i as int], pred);
        }
        let ghost before = list@;
        match entry_of(&entries[i]) {
            Some(entry) => {
                list.push(entry);
                proof {
                    let named = all.take(i + 1).filter(pred);
                    let named_before = all.take(i as int).filter(pred);
                    assert(named =~= named_before.push(all[i as int]));
                    assert forall|k: int| 0 <= k < list@.len() implies is_entry_of(
                        #[trigger] list@[k],
                        named[k],
                    ) by {
                        if k < before.len() {
                            assert(list@[k] == before[k]);
                            assert(named[k] == named_before[k]);
                        }
                    }
                }
            },
            None => {},
        }
        i += 1;
    }
    assert(all.take(i as int) =~= all);
    Ok(
        PlaylistResult {
            playlist_id,
            title,
            url: url.to_owned(),
            video_count,
            channel_name,
            entries: list,
        },
    )
}

/// The kinds of error that a question to the worker can end in.
#[derive(Clone, Copy, Debug, PartialEq, Eq, Structural)]
pub enum RefusalKind {
    Metadata,
    InvalidUrl,
    Network,
}

/// The kind and the text of the error for a question that the worker
/// turned down, by what it left on its error stream.
pub open spec fn refusal(stderr: Seq<char>) -> (RefusalKind, Seq<char>) {
    if occurs(stderr, "Private video"@) || occurs(stderr, "Sign in"@) {
        (RefusalKind::Metadata, "비공개 비디오입니다. 접근할 수 없습니다."@)
    } else if occurs(stderr, "Video unavailable"@) || occurs(stderr, "not available"@) {
        (RefusalKind::Metadata, "이 비디오는 사용할 수 없습니다."@)
    } else if occurs(stderr, "is not a valid URL"@) || occurs(stderr, "Unsupported URL"@) {
        (RefusalKind::InvalidUrl, "지원하지 않는 URL 형식입니다."@)
    } else if occurs(stderr, "HTTP Error 429"@) || occurs(stderr, "Too Many Requests"@) {
        (RefusalKind::Network, "요청이 너무 많습니다. 잠시 후 다시 시도하세요."@)
    } else if occurs(stderr, "No video formats found"@) {
        (RefusalKind::Metadata, "비디오 형식을 찾을 수 없습니다. 라이브 스트림일 수 있습니다."@)
    } else if occurs(stderr, "age"@) {
        (RefusalKind::Metadata, "연령 제한 콘텐츠입니다. 설정에서 쿠키 브라우저를 설정하세요."@)
    } else {
        (RefusalKind::Metadata, "yt-dlp 오류: "@ + last_line(stderr))
    }
}

/// The last line of a text: what follows its last line feed, or, where
/// the text ends with a line feed, what stands before that one. A
/// carriage return before the line feed does not belong to the line.
pub open spec fn last_line(s: Seq<char>) -> Seq<char> {
    let end = if s.len() > 0 && s.last() == '\n' {
        s.len() - 1
    } else {
        s.len() as int
    };
    crate::output::line_text(s, crate::output::line_start(s, end), end)
}

/// Whether `e` is the error that `refusal` describes for `stderr`.
pub open spec fn is_refusal(e: AppError, stderr: Seq<char>) -> bool {
    match e {
        AppError::MetadataError(m) => refusal(stderr).0 == RefusalKind::Metadata && m@
            == refusal(stderr).1,
        AppError::InvalidUrl(m) => refusal(stderr).0 == RefusalKind::InvalidUrl && m@ == refusal(
            stderr,
        ).1,
        AppError::NetworkError(m) => refusal(stderr).0 == RefusalKind::Network && m@ == refusal(
            stderr,
        ).1,
        _ => false,
    }
}

fn holds(v: &Vec<char>, words: &str) -> (b: bool)
    ensures
        b == occurs(v@, words@),
{
    contains(v, &to_chars(words))
}

/// Makes the error for a question that the worker turned down: a
/// private, missing or age-restricted video, an address it does not
/// know, too many requests, or, for anything else, the last line of what
/// it left on its error stream.
pub fn metadata_error(stderr: &str) -> (e: AppError)
    ensures
        is_refusal(e, stderr@),
{
    let v = to_chars(stderr);
    if holds(&v, "Private video") || holds(&v, "Sign in") {
        AppError::MetadataError("비공개 비디오입니다. 접근할 수 없습니다.".to_owned())
    } else if holds(&v, "Video unavailable") || holds(&v, "not available") {
        AppError::MetadataError("이 비디오는 사용할 수 없습니다.".to_owned())
    } else if holds(&v, "is not a valid URL") || holds(&v, "Unsupported URL") {
        AppError::InvalidUrl("지원하지 않는 URL 형식입니다.".to_owned())
    } else if holds(&v, "HTTP Error 429") || holds(&v, "Too Many Requests") {
        AppError::NetworkError("요청이 너무 많습니다. 잠시 후 다시 시도하세요.".to_owned())
    } else if holds(&v, "No video formats found") {
        AppError::MetadataError(
            "비디오 형식을 찾을 수 없습니다. 라이브 스트림일 수 있습니다.".to_owned(),
        )
    } else if holds(&v, "age") {
        AppError::MetadataError(
            "연령 제한 콘텐츠입니다. 설정에서 쿠키 브라우저를 설정하세요.".to_owned(),
        )
    } else {
        let end: usize = if v.len() > 0 && v[v.len() - 1] == '\n' {
            v.len() - 1
        } else {
            v.len()
        };
        let start = crate::output::find_line_start(&v, end);
        let line = if end < v.len() && start < end && v[end - 1] == '\r' {
            text_of(&v, start, end - 1)
        } else {
            text_of(&v, start, end)
        };
        let mut m = "yt-dlp 오류: ".to_owned();
        m.append(line.as_str());
        AppError::MetadataError(m)
    }
}

} // verus!
