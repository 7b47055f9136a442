//! The settings that the queue is run with.

use crate::manager::DownloadManager;
use crate::manager::clamp_ceiling;
use crate::types::text_or;
use vstd::prelude::*;
use vstd::string::StringExecFns;

verus! {

/// The settings of the application.
#[derive(Clone, Debug, PartialEq, Eq)]
pub struct AppSettings {
    pub download_path: String,
    pub default_quality: String,
    pub max_concurrent: u32,
    pub filename_template: String,
    pub cookie_browser: Option<String>,
    pub auto_update_ytdlp: bool,
    pub use_advanced_template: bool,
    pub template_uploader_folder: bool,
    pub template_upload_date: bool,
    pub template_video_id: bool,
    pub language: Option<String>,
    pub theme: Option<String>,
    pub minimize_to_tray: Option<bool>,
    /// How the helper programs are found: "external" for those that the
    /// application keeps itself, "system" for those on the search path.
    pub dep_mode: String,
}

impl Default for AppSettings {
    fn default() -> (s: Self)
        ensures
            s.download_path@ == ""@,
            s.default_quality@ == "1080p"@,
            s.max_concurrent == 3,
            s.filename_template@ == "%(title)s.%(ext)s"@,
            s.cookie_browser is None,
            s.auto_update_ytdlp,
            !s.use_advanced_template,
            !s.template_uploader_folder,
            !s.template_upload_date,
            !s.template_video_id,
            s.language is None,
            s.theme is None,
            s.minimize_to_tray is None,
            s.dep_mode@ == "external"@,
    {
        proof {
            reveal_strlit("");
        }
        AppSettings {
            download_path: String::new(),
            default_quality: "1080p".to_owned(),
            max_concurrent: 3,
            filename_template: "%(title)s.%(ext)s".to_owned(),
            cookie_browser: None,
            auto_update_ytdlp: true,
            use_advanced_template: false,
            template_uploader_folder: false,
            template_upload_date: false,
            template_video_id: false,
            language: None,
            theme: None,
            minimize_to_tray: None,
            dep_mode: "external".to_owned(),
        }
    }
}

impl AppSettings {
    /// Whether the helper programs are those that the application keeps itself.
    pub fn is_external_mode(&self) -> (b: bool)
        ensures
            b == (self.dep_mode@ == "external"@),
    {
        crate::text::same_text(self.dep_mode.as_str(), "external")
    }
}

/// The settings as they are found in the settings file: each one may be missing.
#[derive(Clone, Debug, PartialEq, Eq)]
pub struct StoredSettings {
    pub download_path: Option<String>,
    pub default_quality: Option<String>,
    pub max_concurrent: Option<u64>,
    pub filename_template: Option<String>,
    pub cookie_browser: Option<String>,
    pub auto_update_ytdlp: Option<bool>,
    pub use_advanced_template: Option<bool>,
    pub template_uploader_folder: Option<bool>,
    pub template_upload_date: Option<bool>,
    pub template_video_id: Option<bool>,
    pub language: Option<String>,
    pub theme: Option<String>,
    pub minimize_to_tray: Option<bool>,
    pub dep_mode: Option<String>,
}

/// A switch that was found, or the one that stands in for it.
pub open spec fn flag_or(found: Option<bool>, other: bool) -> bool {
    match found {
        Some(b) => b,
        None => other,
    }
}

/// The ceiling that the settings file names, cut to 32 bits, or three.
pub open spec fn ceiling_or_default(found: Option<u64>) -> u32 {
    match found {
        Some(n) => (n % 0x1_0000_0000) as u32,
        None => 3,
    }
}

fn or_text(found: Option<String>, other: &str) -> (r: String)
    ensures
        r@ == text_or(found, other@),
{
    match found {
        Some(s) => s,
        None => other.to_owned(),
    }
}

fn or_flag(found: Option<bool>, other: bool) -> (r: bool)
    ensures
        r == flag_or(found, other),
{
    match found {
        Some(b) => b,
        None => other,
    }
}

/// The settings to work with: what the settings file holds, and for each
/// setting that it does not hold the default. The default of the download
/// directory is `default_download_path`.
pub fn get_settings(stored: StoredSettings, default_download_path: &str) -> (s: AppSettings)
    ensures
        s.download_path@ == text_or(stored.download_path, default_download_path@),
        s.default_quality@ == text_or(stored.default_quality, "1080p"@),
        s.max_concurrent == ceiling_or_default(stored.max_concurrent),
        s.filename_template@ == text_or(stored.filename_template, "%(title)s.%(ext)s"@),
        s.cookie_browser == stored.cookie_browser,
        s.auto_update_ytdlp == flag_or(stored.auto_update_ytdlp, true),
        s.use_advanced_template == flag_or(stored.use_advanced_template, false),
        s.template_uploader_folder == flag_or(stored.template_uploader_folder, false),
        s.template_upload_date == flag_or(stored.template_upload_date, false),
        s.template_video_id == flag_or(stored.template_video_id, false),
        s.language == stored.language,
        s.theme == stored.theme,
        s.minimize_to_tray == stored.minimize_to_tray,
        s.dep_mode@ == text_or(stored.dep_mode, "external"@),
{
    let max_concurrent: u32 = match stored.max_concurrent {
        Some(n) => {
            let low: u64 = n & 0xffff_ffff;
            assert(low == n % 0x1_0000_0000 && low <= 0xffff_ffff) by (bit_vector)
                requires
                    low == n & 0xffff_ffff,
            ;
            low as u32
        },
        None => 3,
    };
    AppSettings {
        download_path: or_text(stored.download_path, default_download_path),
        default_quality: or_text(stored.default_quality, "1080p"),
        max_concurrent,
        filename_template: or_text(stored.filename_template, "%(title)s.%(ext)s"),
        cookie_browser: stored.cookie_browser,
        auto_update_ytdlp: or_flag(stored.auto_update_ytdlp, true),
        use_advanced_template: or_flag(stored.use_advanced_template, false),
        template_uploader_folder: or_flag(stored.template_uploader_folder, false),
        template_upload_date: or_flag(stored.template_upload_date, false),
        template_video_id: or_flag(stored.template_video_id, false),
        language: stored.language,
        theme: stored.theme,
        minimize_to_tray: stored.minimize_to_tray,
        dep_mode: or_text(stored.dep_mode, "external"),
    }
}

/// The directory that downloads go to where the settings name none: the
/// folder `Downloads` in the user's home, or the working directory where
/// the home is not known.
pub open spec fn default_download_text(home: Option<Seq<char>>, windows: bool) -> Seq<char> {
    match home {
        Some(h) => if windows {
            h + "\\Downloads"@
        } else {
            h + "/Downloads"@
        },
        None => "."@,
    }
}

/// The default of the download directory; see `default_download_text`.
pub fn default_download_path(home: Option<&str>, windows: bool) -> (path: String)
    ensures
        path@ == default_download_text(
            match home {
                Some(h) => Some(h@),
                None => None,
            },
            windows,
        ),
{
    match home {
        Some(h) => {
            let mut path = h.to_owned();
            if windows {
                path.append("\\Downloads");
            } else {
                path.append("/Downloads");
            }
            path
        },
        None => ".".to_owned(),
    }
}

/// Brings the manager's ceiling in line with the settings. Downloads that
/// run are not touched; the new ceiling counts from the next slot taken.
pub fn apply_settings(settings: &AppSettings, manager: &mut DownloadManager)
    requires
        old(manager).wf(),
    ensures
        final(manager).wf(),
        final(manager).ceiling() == clamp_ceiling(settings.max_concurrent),
        final(manager).count() == old(manager).count(),
        final(manager).registered() == old(manager).registered(),
{
    manager.set_max_concurrent(settings.max_concurrent);
}

} // verus!
