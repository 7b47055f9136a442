//! What is known of the helper programs, and how long it is believed.

use crate::output::line_text;
use crate::paths::join;
use crate::paths::joined_with;
use crate::text::copy_opt_text;
use crate::text::find_char;
use crate::text::same_text;
use crate::text::text_of;
use crate::text::texts;
use crate::text::to_chars;
use crate::types::opt_text;
use vstd::prelude::*;
use vstd::string::StringExecFns;

verus! {

/// Where a helper program was found.
#[derive(Clone, Copy, Debug, PartialEq, Eq, Structural)]
pub enum DepSource {
    AppManaged,
    SystemPath,
    NotFound,
}

/// What is known of one helper program.
#[derive(Clone, Debug, PartialEq, Eq)]
pub struct DepInfo {
    pub installed: bool,
    pub version: Option<String>,
    pub source: DepSource,
    pub path: Option<String>,
}

/// What a `DepInfo` holds.
pub struct DepInfoView {
    pub installed: bool,
    pub version: Option<Seq<char>>,
    pub source: DepSource,
    pub path: Option<Seq<char>>,
}

impl View for DepInfo {
    type V = DepInfoView;

    open spec fn view(&self) -> DepInfoView {
        DepInfoView {
            installed: self.installed,
            version: opt_text(self.version),
            source: self.source,
            path: opt_text(self.path),
        }
    }
}

impl DepInfo {
    /// A copy of this value.
    pub fn duplicate(&self) -> (r: Self)
        ensures
            r == *self,
    {
        DepInfo {
            installed: self.installed,
            version: copy_opt_text(&self.version),
            source: self.source,
            path: copy_opt_text(&self.path),
        }
    }

    /// What is said of a helper program that was not found.
    pub fn not_found() -> (r: Self)
        ensures
            r@ == (DepInfoView {
                installed: false,
                version: None,
                source: DepSource::NotFound,
                path: None,
            }),
    {
        DepInfo { installed: false, version: None, source: DepSource::NotFound, path: None }
    }
}

/// What is known of all helper programs.
#[derive(Clone, Debug, PartialEq, Eq)]
pub struct FullDependencyStatus {
    pub ytdlp: DepInfo,
    pub ffmpeg: DepInfo,
    pub deno: DepInfo,
}

impl FullDependencyStatus {
    /// A copy of this value.
    pub fn duplicate(&self) -> (r: Self)
        ensures
            r == *self,
    {
        FullDependencyStatus {
            ytdlp: self.ytdlp.duplicate(),
            ffmpeg: self.ffmpeg.duplicate(),
            deno: self.deno.duplicate(),
        }
    }
}

/// The operating systems that helper programs are fetched for.
#[derive(Clone, Copy, Debug, PartialEq, Eq, Structural)]
pub enum Os {
    Macos,
    Windows,
    Linux,
}

/// The machine that helper programs are fetched for.
#[derive(Clone, Copy, Debug, PartialEq, Eq, Structural)]
pub struct Platform {
    pub os: Os,
    /// Whether the processor is a 64-bit ARM; any other counts as x86-64.
    pub aarch64: bool,
}

/// The helper programs.
#[derive(Clone, Copy, Debug, PartialEq, Eq, Structural)]
pub enum Dependency {
    Ytdlp,
    Ffmpeg,
    Deno,
}

/// How what is fetched is packed.
#[derive(Clone, Copy, Debug, PartialEq, Eq, Structural)]
pub enum ArchiveFormat {
    /// The program itself, not packed.
    Plain,
    Zip,
    TarGz,
    TarXz,
}

impl Dependency {
    /// The name that a helper program goes by.
    pub open spec fn name_text(self) -> Seq<char> {
        match self {
            Dependency::Ytdlp => "yt-dlp"@,
            Dependency::Ffmpeg => "ffmpeg"@,
            Dependency::Deno => "deno"@,
        }
    }

    /// The helper program that goes by `name`, if there is one.
    pub open spec fn named(name: Seq<char>) -> Option<Dependency> {
        if name == "yt-dlp"@ {
            Some(Dependency::Ytdlp)
        } else if name == "ffmpeg"@ {
            Some(Dependency::Ffmpeg)
        } else if name == "deno"@ {
            Some(Dependency::Deno)
        } else {
            None
        }
    }

    /// Where a helper program is fetched from.
    pub open spec fn url_text(self, platform: Platform) -> Seq<char> {
        match self {
            Dependency::Ytdlp => match platform.os {
                Os::Macos => "https://github.com/yt-dlp/yt-dlp/releases/latest/download/yt-dlp_macos"@,
                Os::Windows => "https://github.com/yt-dlp/yt-dlp/releases/latest/download/yt-dlp.exe"@,
                Os::Linux => "https://github.com/yt-dlp/yt-dlp/releases/latest/download/yt-dlp_linux"@,
            },
            Dependency::Ffmpeg => match platform.os {
                Os::Macos => if platform.aarch64 {
                    "https://github.com/vanloctech/ffmpeg-macos/releases/latest/download/ffmpeg-macos-arm64.tar.gz"@
                } else {
                    "https://github.com/vanloctech/ffmpeg-macos/releases/latest/download/ffmpeg-macos-x64.tar.gz"@
                },
                Os::Windows => "https://github.com/BtbN/FFmpeg-Builds/releases/download/latest/ffmpeg-master-latest-win64-gpl.zip"@,
                Os::Linux => if platform.aarch64 {
                    "https://github.com/BtbN/FFmpeg-Builds/releases/download/latest/ffmpeg-master-latest-linuxarm64-gpl.tar.xz"@
                } else {
                    "https://github.com/BtbN/FFmpeg-Builds/releases/download/latest/ffmpeg-master-latest-linux64-gpl.tar.xz"@
                },
            },
            Dependency::Deno => match platform.os {
                Os::Macos => if platform.aarch64 {
                    "https://github.com/denoland/deno/releases/latest/download/deno-aarch64-apple-darwin.zip"@
                } else {
                    "https://github.com/denoland/deno/releases/latest/download/deno-x86_64-apple-darwin.zip"@
                },
                Os::Windows => "https://github.com/denoland/deno/releases/latest/download/deno-x86_64-pc-windows-msvc.zip"@,
                Os::Linux => if platform.aarch64 {
                    "https://github.com/denoland/deno/releases/latest/download/deno-aarch64-unknown-linux-gnu.zip"@
                } else {
                    "https://github.com/denoland/deno/releases/latest/download/deno-x86_64-unknown-linux-gnu.zip"@
                },
            },
        }
    }

    /// How what is fetched for a helper program is packed.
    pub open spec fn format_of(self, os: Os) -> ArchiveFormat {
        match self {
            Dependency::Ytdlp => ArchiveFormat::Plain,
            Dependency::Ffmpeg => match os {
                Os::Macos => ArchiveFormat::TarGz,
                Os::Windows => ArchiveFormat::Zip,
                Os::Linux => ArchiveFormat::TarXz,
            },
            Dependency::Deno => ArchiveFormat::Zip,
        }
    }

    /// The files that a helper program consists of, the program itself first.
    pub open spec fn file_names(self, os: Os) -> Seq<Seq<char>> {
        match self {
            Dependency::Ytdlp => if os == Os::Windows {
                seq!["yt-dlp.exe"@]
            } else {
                seq!["yt-dlp"@]
            },
            Dependency::Ffmpeg => if os == Os::Windows {
                seq!["ffmpeg.exe"@, "ffprobe.exe"@]
            } else {
                seq!["ffmpeg"@, "ffprobe"@]
            },
            Dependency::Deno => if os == Os::Windows {
                seq!["deno.exe"@]
            } else {
                seq!["deno"@]
            },
        }
    }

    /// The name that a helper program goes by.
    pub fn name(self) -> (n: &'static str)
        ensures
            n@ == self.name_text(),
    {
        match self {
            Dependency::Ytdlp => "yt-dlp",
            Dependency::Ffmpeg => "ffmpeg",
            Dependency::Deno => "deno",
        }
    }

    /// The helper program that goes by `name`, if there is one.
    pub fn from_name(name: &str) -> (d: Option<Dependency>)
        ensures
            d == Dependency::named(name@),
    {
        if same_text(name, "yt-dlp") {
            Some(Dependency::Ytdlp)
        } else if same_text(name, "ffmpeg") {
            Some(Dependency::Ffmpeg)
        } else if same_text(name, "deno") {
            Some(Dependency::Deno)
        } else {
            None
        }
    }

    /// Where this helper program is fetched from for `platform`.
    pub fn get_download_url(self, platform: Platform) -> (url: &'static str)
        ensures
            url@ == self.url_text(platform),
    {
        match self {
            Dependency::Ytdlp => match platform.os {
                Os::Macos => "https://github.com/yt-dlp/yt-dlp/releases/latest/download/yt-dlp_macos",
                Os::Windows => "https://github.com/yt-dlp/yt-dlp/releases/latest/download/yt-dlp.exe",
                Os::Linux => "https://github.com/yt-dlp/yt-dlp/releases/latest/download/yt-dlp_linux",
            },
            Dependency::Ffmpeg => match platform.os {
                Os::Macos => if platform.aarch64 {
                    "https://github.com/vanloctech/ffmpeg-macos/releases/latest/download/ffmpeg-macos-arm64.tar.gz"
                } else {
                    "https://github.com/vanloctech/ffmpeg-macos/releases/latest/download/ffmpeg-macos-x64.tar.gz"
                },
                Os::Windows => "https://github.com/BtbN/FFmpeg-Builds/releases/download/latest/ffmpeg-master-latest-win64-gpl.zip",
                Os::Linux => if platform.aarch64 {
                    "https://github.com/BtbN/FFmpeg-Builds/releases/download/latest/ffmpeg-master-latest-linuxarm64-gpl.tar.xz"
                } else {
                    "https://github.com/BtbN/FFmpeg-Builds/releases/download/latest/ffmpeg-master-latest-linux64-gpl.tar.xz"
                },
            },
            Dependency::Deno => match platform.os {
                Os::Macos => if platform.aarch64 {
                    "https://github.com/denoland/deno/releases/latest/download/deno-aarch64-apple-darwin.zip"
                } else {
                    "https://github.com/denoland/deno/releases/latest/download/deno-x86_64-apple-darwin.zip"
                },
                Os::Windows => "https://github.com/denoland/deno/releases/latest/download/deno-x86_64-pc-windows-msvc.zip",
                Os::Linux => if platform.aarch64 {
                    "https://github.com/denoland/deno/releases/latest/download/deno-aarch64-unknown-linux-gnu.zip"
                } else {
                    "https://github.com/denoland/deno/releases/latest/download/deno-x86_64-unknown-linux-gnu.zip"
                },
            },
        }
    }

    /// How what is fetched for this helper program is packed.
    pub fn archive_format(self, os: Os) -> (f: ArchiveFormat)
        ensures
            f == self.format_of(os),
    {
        match self {
            Dependency::Ytdlp => ArchiveFormat::Plain,
            Dependency::Ffmpeg => match os {
                Os::Macos => ArchiveFormat::TarGz,
                Os::Windows => ArchiveFormat::Zip,
                Os::Linux => ArchiveFormat::TarXz,
            },
            Dependency::Deno => ArchiveFormat::Zip,
        }
    }

    /// The name of the program itself on `os`.
    pub fn get_binary_name(self, os: Os) -> (n: &'static str)
        ensures
            n@ == self.file_names(os)[0],
    {
        let windows = os == Os::Windows;
        match self {
            Dependency::Ytdlp => if windows {
                "yt-dlp.exe"
            } else {
                "yt-dlp"
            },
            Dependency::Ffmpeg => if windows {
                "ffmpeg.exe"
            } else {
                "ffmpeg"
            },
            Dependency::Deno => if windows {
                "deno.exe"
            } else {
                "deno"
            },
        }
    }

    /// The files that this helper program consists of on `os`.
    pub fn get_binary_names(self, os: Os) -> (names: Vec<&'static str>)
        ensures
            names@.len() == self.file_names(os).len(),
            forall|i: int| 0 <= i < names@.len() ==> names@[i]@ == self.file_names(os)[i],
    {
        let mut names: Vec<&'static str> = Vec::new();
        names.push(self.get_binary_name(os));
        match self {
            Dependency::Ffmpeg => {
                if os == Os::Windows {
                    names.push("ffprobe.exe");
                } else {
                    names.push("ffprobe");
                }
            },
            _ => {},
        }
        names
    }
}

/// The name under which the worker for `os` stands in the list of
/// check sums of a release.
pub open spec fn checksum_name_text(os: Os) -> Seq<char> {
    match os {
        Os::Macos => "yt-dlp_macos"@,
        Os::Windows => "yt-dlp.exe"@,
        Os::Linux => "yt-dlp_linux"@,
    }
}

/// The name under which the worker for `os` stands in the list of
/// check sums of a release.
pub fn get_checksum_filename(os: Os) -> (n: &'static str)
    ensures
        n@ == checksum_name_text(os),
{
    match os {
        Os::Macos => "yt-dlp_macos",
        Os::Windows => "yt-dlp.exe",
        Os::Linux => "yt-dlp_linux",
    }
}

/// What is known of the worker and its helper tool, as the first
/// question at start-up finds it.
#[derive(Clone, Debug, PartialEq, Eq)]
pub struct DependencyStatus {
    pub ytdlp_installed: bool,
    pub ytdlp_version: Option<String>,
    pub ffmpeg_installed: bool,
    pub ffmpeg_version: Option<String>,
    /// What was tried to find the worker, for the case that it was not found.
    pub ytdlp_debug: Option<String>,
}

/// Puts together what is known of the worker and its helper tool: each
/// counts as installed if its version could be read. The notes on what
/// was tried are given as lines, if there are any.
pub fn dependency_status(
    ytdlp_version: Option<String>,
    ffmpeg_version: Option<String>,
    debug_lines: &Vec<String>,
) -> (status: DependencyStatus)
    ensures
        status.ytdlp_installed == ytdlp_version is Some,
        status.ytdlp_version == ytdlp_version,
        status.ffmpeg_installed == ffmpeg_version is Some,
        status.ffmpeg_version == ffmpeg_version,
        opt_text(status.ytdlp_debug) == (if debug_lines@.len() == 0 {
            None
        } else {
            Some(joined_with(texts(debug_lines@), seq!['\n']))
        }),
{
    proof {
        reveal_strlit("\n");
        assert("\n"@ =~= seq!['\n']);
    }
    let ytdlp_debug = if debug_lines.len() == 0 {
        None
    } else {
        Some(join(debug_lines, "\n"))
    };
    DependencyStatus {
        ytdlp_installed: ytdlp_version.is_some(),
        ytdlp_version,
        ffmpeg_installed: ffmpeg_version.is_some(),
        ffmpeg_version,
        ytdlp_debug,
    }
}

/// How far the installation of a helper program has come.
#[derive(Clone, Copy, Debug, PartialEq, Eq, Structural)]
pub enum DepInstallStage {
    Downloading,
    Verifying,
    Extracting,
    Completing,
    Failed,
}

/// Whether a newer version of a helper program can be had.
#[derive(Clone, Debug, PartialEq, Eq)]
pub struct DepUpdateInfo {
    pub current_version: Option<String>,
    pub latest_version: String,
    pub update_available: bool,
}

/// What is said of a helper program whose latest version is `latest`:
/// the installed version is not looked at, and the update is offered.
pub fn update_info(latest: String) -> (info: DepUpdateInfo)
    ensures
        info.current_version is None,
        info.latest_version == latest,
        info.update_available,
{
    DepUpdateInfo { current_version: None, latest_version: latest, update_available: true }
}

impl DepInfo {
    /// What is said of a helper program that the application keeps
    /// itself, at `path`: it counts as installed whether or not its
    /// version could be read.
    pub fn app_managed(version: Option<String>, path: String) -> (r: Self)
        ensures
            r.installed,
            r.version == version,
            r.source == DepSource::AppManaged,
            r.path == Some(path),
    {
        DepInfo { installed: true, version, source: DepSource::AppManaged, path: Some(path) }
    }

    /// What is said of a helper program that was looked for on the search
    /// path: it counts as installed only if its version could be read.
    pub fn on_system_path(version: Option<String>) -> (r: Self)
        ensures
            r.installed == version is Some,
            r.version == version,
            r.source == (if version is Some {
                DepSource::SystemPath
            } else {
                DepSource::NotFound
            }),
            r.path is None,
    {
        match version {
            Some(v) => DepInfo {
                installed: true,
                version: Some(v),
                source: DepSource::SystemPath,
                path: None,
            },
            None => DepInfo::not_found(),
        }
    }

    /// What is said of a helper program that was found at `path`, be it
    /// the application's own or not.
    pub fn found_at(path: String, is_app_managed: bool, version: Option<String>) -> (r: Self)
        ensures
            r.installed,
            r.version == version,
            r.source == (if is_app_managed {
                DepSource::AppManaged
            } else {
                DepSource::SystemPath
            }),
            r.path == Some(path),
    {
        DepInfo {
            installed: true,
            version,
            source: if is_app_managed {
                DepSource::AppManaged
            } else {
                DepSource::SystemPath
            },
            path: Some(path),
        }
    }
}

/// The first line of a text, without its line end.
pub open spec fn first_line_text(s: Seq<char>) -> Seq<char> {
    line_text(s, 0, find_char(s, '\n', 0, s.len() as int))
}

/// The first line of what a program printed, which names its version.
pub fn first_line(output: &str) -> (line: String)
    ensures
        line@ == first_line_text(output@),
{
    let v = to_chars(output);
    let mut end: usize = 0;
    while end < v.len() && v[end] != '\n'
        invariant
            end <= v@.len(),
            find_char(v@, '\n', 0, v@.len() as int) == find_char(
                v@,
                '\n',
                end as int,
                v@.len() as int,
            ),
        decreases v@.len() - end,
    {
        end += 1;
    }
    if end < v.len() && 0 < end && v[end - 1] == '\r' {
        text_of(&v, 0, end - 1)
    } else {
        text_of(&v, 0, end)
    }
}

/// The browsers that cookies can be taken from, each with a place where
/// it is installed, by operating system. A browser may stand in the list
/// more than once. For Linux there are no places: every browser counts
/// as there.
pub open spec fn browser_table(os: Os) -> Seq<(Seq<char>, Seq<char>)> {
    match os {
        Os::Windows => seq![
            ("chrome"@, "C:\\Program Files\\Google\\Chrome\\Application\\chrome.exe"@),
            ("chrome"@, "C:\\Program Files (x86)\\Google\\Chrome\\Application\\chrome.exe"@),
            ("firefox"@, "C:\\Program Files\\Mozilla Firefox\\firefox.exe"@),
            ("firefox"@, "C:\\Program Files (x86)\\Mozilla Firefox\\firefox.exe"@),
            ("edge"@, "C:\\Program Files (x86)\\Microsoft\\Edge\\Application\\msedge.exe"@),
            ("brave"@, "C:\\Program Files\\BraveSoftware\\Brave-Browser\\Application\\brave.exe"@),
        ],
        Os::Macos => seq![
            ("chrome"@, "/Applications/Google Chrome.app"@),
            ("firefox"@, "/Applications/Firefox.app"@),
            ("safari"@, "/Applications/Safari.app"@),
            ("brave"@, "/Applications/Brave Browser.app"@),
            ("edge"@, "/Applications/Microsoft Edge.app"@),
        ],
        Os::Linux => seq![
            ("chrome"@, ""@),
            ("chromium"@, ""@),
            ("firefox"@, ""@),
            ("brave"@, ""@),
        ],
    }
}

/// What a list of pairs of fixed texts holds.
pub open spec fn fixed_pairs(v: Seq<(&'static str, &'static str)>) -> Seq<(Seq<char>, Seq<char>)> {
    v.map_values(|p: (&'static str, &'static str)| (p.0@, p.1@))
}

/// The browsers to look for on `os`; see `browser_table`.
pub fn browser_checks(os: Os) -> (checks: Vec<(&'static str, &'static str)>)
    ensures
        fixed_pairs(checks@) == browser_table(os),
{
    let mut checks: Vec<(&'static str, &'static str)> = Vec::new();
    match os {
        Os::Windows => {
            checks.push(("chrome", "C:\\Program Files\\Google\\Chrome\\Application\\chrome.exe"));
            checks.push(
                ("chrome", "C:\\Program Files (x86)\\Google\\Chrome\\Application\\chrome.exe"),
            );
            checks.push(("firefox", "C:\\Program Files\\Mozilla Firefox\\firefox.exe"));
            checks.push(("firefox", "C:\\Program Files (x86)\\Mozilla Firefox\\firefox.exe"));
            checks.push(
                ("edge", "C:\\Program Files (x86)\\Microsoft\\Edge\\Application\\msedge.exe"),
            );
            checks.push(
                ("brave", "C:\\Program Files\\BraveSoftware\\Brave-Browser\\Application\\brave.exe"),
            );
        },
        Os::Macos => {
            checks.push(("chrome", "/Applications/Google Chrome.app"));
            checks.push(("firefox", "/Applications/Firefox.app"));
            checks.push(("safari", "/Applications/Safari.app"));
            checks.push(("brave", "/Applications/Brave Browser.app"));
            checks.push(("edge", "/Applications/Microsoft Edge.app"));
        },
        Os::Linux => {
            checks.push(("chrome", ""));
            checks.push(("chromium", ""));
            checks.push(("firefox", ""));
            checks.push(("brave", ""));
        },
    }
    assert(fixed_pairs(checks@) =~= browser_table(os));
    checks
}

/// Whether the browser at place `i` of the list counts as there: on
/// Linux always, elsewhere if it was found at its place.
pub open spec fn counts_as_found(os: Os, found: Seq<bool>, i: int) -> bool {
    os == Os::Linux || (0 <= i < found.len() && found[i])
}

/// The browsers among the first `n` of `table` that count as there, each
/// named once, in the order of the list.
pub open spec fn browsers_among(
    os: Os,
    table: Seq<(Seq<char>, Seq<char>)>,
    found: Seq<bool>,
    n: int,
) -> Seq<Seq<char>>
    decreases n,
{
    if n <= 0 {
        Seq::empty()
    } else {
        let before = browsers_among(os, table, found, n - 1);
        if counts_as_found(os, found, n - 1) && !before.contains(table[n - 1].0) {
            before.push(table[n - 1].0)
        } else {
            before
        }
    }
}

fn names(list: &Vec<String>, name: &str) -> (b: bool)
    ensures
        b == texts(list@).contains(name@),
{
    let mut i: usize = 0;
    while i < list.len()
        invariant
            i <= list@.len(),
            forall|k: int| 0 <= k < i ==> texts(list@)[k] != name@,
        decreases list@.len() - i,
    {
        if same_text(list[i].as_str(), name) {
            assert(texts(list@)[i as int] == name@);
            return true;
        }
        i += 1;
    }
    false
}

/// The browsers that cookies can be taken from on this machine. `found`
/// says for each place of `browser_checks(os)` whether the browser is
/// installed there; a place that `found` does not reach counts as empty.
pub fn get_available_browsers(os: Os, found: &Vec<bool>) -> (browsers: Vec<String>)
    ensures
        texts(browsers@) == browsers_among(
            os,
            browser_table(os),
            found@,
            browser_table(os).len() as int,
        ),
{
    let checks = browser_checks(os);
    let ghost table = browser_table(os);
    let mut browsers: Vec<String> = Vec::new();
    let mut i: usize = 0;
    assert(texts(browsers@) =~= browsers_among(os, table, found@, 0));
    while i < checks.len()
        invariant
            i <= checks@.len(),
            fixed_pairs(checks@) == table,
            texts(browsers@) == browsers_among(os, table, found@, i as int),
        decreases checks@.len() - i,
    {
        let name = checks[i].0;
        assert(table[i as int].0 == name@);
        let there = match os {
            Os::Linux => true,
            _ => i < found.len() && found[i],
        };
        if there && !names(&browsers, name) {
            let ghost before = texts(browsers@);
            browsers.push(name.to_owned());
            assert(texts(browsers@) =~= before.push(name@));
        }
        i += 1;
    }
    browsers
}

/// What is said after the files of a helper program that the application
/// keeps were deleted: the files, with commas between them, or that
/// there were none.
pub open spec fn deletion_text(dep: Dependency, deleted: Seq<Seq<char>>) -> Seq<char> {
    if deleted.len() == 0 {
        dep.name_text() + ": no app-managed binaries found"@
    } else {
        dep.name_text() + ": deleted "@ + joined_with(deleted, ", "@)
    }
}

/// The message for a deletion; see `deletion_text`.
pub fn deletion_message(dep: Dependency, deleted: &Vec<String>) -> (m: String)
    ensures
        m@ == deletion_text(dep, texts(deleted@)),
{
    let mut m = dep.name().to_owned();
    if deleted.len() == 0 {
        m.append(": no app-managed binaries found");
    } else {
        m.append(": deleted ");
        let list = join(deleted, ", ");
        m.append(list.as_str());
    }
    m
}

/// For how many milliseconds a status that was looked up is believed.
pub const DEP_CACHE_TTL_MS: u64 = 60000;

/// A status that was looked up, and when.
struct CachedStatus {
    status: FullDependencyStatus,
    cached_at_ms: u64,
}

/// The last status of the helper programs that was looked up.
pub struct DepStatusCache {
    entry: Option<CachedStatus>,
}

/// Whether a status stored at `cached_at_ms` is still believed at `now_ms`:
/// for less than a minute after it was stored.
pub open spec fn is_fresh(cached_at_ms: u64, now_ms: u64) -> bool {
    now_ms < cached_at_ms || now_ms - cached_at_ms < DEP_CACHE_TTL_MS
}

impl DepStatusCache {
    /// The status that is kept and the time it was stored at, if any is kept.
    pub closed spec fn kept(&self) -> Option<(FullDependencyStatus, u64)> {
        match self.entry {
            Some(e) => Some((e.status, e.cached_at_ms)),
            None => None,
        }
    }

    /// A cache that keeps nothing.
    pub fn new() -> (c: Self)
        ensures
            c.kept() is None,
    {
        DepStatusCache { entry: None }
    }

    /// The status that is kept, if one is and it is still believed at `now_ms`.
    pub fn lookup(&self, now_ms: u64) -> (r: Option<FullDependencyStatus>)
        ensures
            r == (match self.kept() {
                Some((status, at)) => if is_fresh(at, now_ms) {
                    Some(status)
                } else {
                    None
                },
                None => None,
            }),
    {
        match &self.entry {
            Some(e) => {
                if now_ms < e.cached_at_ms || now_ms - e.cached_at_ms < DEP_CACHE_TTL_MS {
                    Some(e.status.duplicate())
                } else {
                    None
                }
            },
            None => None,
        }
    }

    /// Keeps `status` as looked up at `now_ms`, in place of what was kept.
    pub fn store(&mut self, status: &FullDependencyStatus, now_ms: u64)
        ensures
            final(self).kept() == Some((*status, now_ms)),
    {
        self.entry = Some(CachedStatus { status: status.duplicate(), cached_at_ms: now_ms });
    }
}

/// Forgets the status that is kept, so that the next question is answered
/// by looking the helper programs up anew.
pub fn invalidate_dep_cache(cache: &mut DepStatusCache)
    ensures
        final(cache).kept() is None,
{
    cache.entry = None;
}

} // verus!
