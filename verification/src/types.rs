//! The records that the queue stores and hands out, and what each stands
//! for in contracts.

use crate::status::DownloadStatus;
use crate::text::copy_opt_text;
use vstd::prelude::*;

verus! {

/// Progress is kept in thousandths of a percent.
pub const PERCENT_UNIT: u64 = 1000;

/// A finished download: one hundred percent.
pub const PERCENT_COMPLETE: u64 = 100000;

/// The characters of an optional text.
pub open spec fn opt_text(o: Option<String>) -> Option<Seq<char>> {
    match o {
        Some(s) => Some(s@),
        None => None,
    }
}

/// A text that was found, or the one that stands in for it.
pub open spec fn text_or(found: Option<String>, other: Seq<char>) -> Seq<char> {
    match found {
        Some(s) => s@,
        None => other,
    }
}

/// What a caller asks to have downloaded.
#[derive(Clone, Debug, PartialEq, Eq)]
pub struct DownloadRequest {
    pub video_url: String,
    pub video_id: String,
    pub title: String,
    pub format_id: String,
    pub quality_label: String,
    pub output_dir: Option<String>,
    pub cookie_browser: Option<String>,
}

/// One row of the task table.
#[derive(Clone, Debug, PartialEq, Eq)]
pub struct DownloadTaskInfo {
    pub id: u64,
    pub video_url: String,
    pub video_id: String,
    pub title: String,
    pub format_id: String,
    pub quality_label: String,
    pub output_path: String,
    pub status: DownloadStatus,
    /// In thousandths of a percent.
    pub progress: u64,
    pub speed: Option<String>,
    pub eta: Option<String>,
    pub error_message: Option<String>,
    pub created_at: i64,
    pub completed_at: Option<i64>,
}

/// What a row of the task table holds.
pub struct TaskView {
    pub id: u64,
    pub video_url: Seq<char>,
    pub video_id: Seq<char>,
    pub title: Seq<char>,
    pub format_id: Seq<char>,
    pub quality_label: Seq<char>,
    pub output_path: Seq<char>,
    pub status: DownloadStatus,
    pub progress: u64,
    pub speed: Option<Seq<char>>,
    pub eta: Option<Seq<char>>,
    pub error_message: Option<Seq<char>>,
    pub created_at: i64,
    pub completed_at: Option<i64>,
}

impl TaskView {
    /// This row with another status and error text, all else kept.
    pub open spec fn with_status(self, status: DownloadStatus, error: Option<Seq<char>>) -> Self {
        TaskView { status: status, error_message: error, ..self }
    }

    /// This row with its status alone replaced.
    pub open spec fn with_only_status(self, status: DownloadStatus) -> Self {
        TaskView { status: status, ..self }
    }

    /// This row with another progress report, all else kept.
    pub open spec fn with_progress(
        self,
        progress: u64,
        speed: Option<Seq<char>>,
        eta: Option<Seq<char>>,
    ) -> Self {
        TaskView { progress: progress, speed: speed, eta: eta, ..self }
    }

    /// This row as it stands once the download has succeeded at `completed_at`.
    pub open spec fn completed(self, completed_at: i64) -> Self {
        TaskView {
            status: DownloadStatus::Completed,
            completed_at: Some(completed_at),
            progress: PERCENT_COMPLETE,
            ..self
        }
    }
}

impl View for DownloadTaskInfo {
    type V = TaskView;

    open spec fn view(&self) -> TaskView {
        TaskView {
            id: self.id,
            video_url: self.video_url@,
            video_id: self.video_id@,
            title: self.title@,
            format_id: self.format_id@,
            quality_label: self.quality_label@,
            output_path: self.output_path@,
            status: self.status,
            progress: self.progress,
            speed: opt_text(self.speed),
            eta: opt_text(self.eta),
            error_message: opt_text(self.error_message),
            created_at: self.created_at,
            completed_at: self.completed_at,
        }
    }
}

impl DownloadTaskInfo {
    /// A copy of this row.
    pub fn duplicate(&self) -> (r: Self)
        ensures
            r == *self,
    {
        DownloadTaskInfo {
            id: self.id,
            video_url: self.video_url.clone(),
            video_id: self.video_id.clone(),
            title: self.title.clone(),
            format_id: self.format_id.clone(),
            quality_label: self.quality_label.clone(),
            output_path: self.output_path.clone(),
            status: self.status,
            progress: self.progress,
            speed: copy_opt_text(&self.speed),
            eta: copy_opt_text(&self.eta),
            error_message: copy_opt_text(&self.error_message),
            created_at: self.created_at,
            completed_at: self.completed_at,
        }
    }
}

/// The record of one download that succeeded.
#[derive(Clone, Debug, PartialEq, Eq)]
pub struct HistoryItem {
    pub id: u64,
    pub video_url: String,
    pub video_id: String,
    pub title: String,
    pub quality_label: String,
    pub format: String,
    pub file_path: String,
    pub file_size: Option<u64>,
    pub downloaded_at: i64,
}

/// What a history record holds.
pub struct HistoryView {
    pub id: u64,
    pub video_url: Seq<char>,
    pub video_id: Seq<char>,
    pub title: Seq<char>,
    pub quality_label: Seq<char>,
    pub format: Seq<char>,
    pub file_path: Seq<char>,
    pub file_size: Option<u64>,
    pub downloaded_at: i64,
}

impl HistoryView {
    /// This record under another identifier.
    pub open spec fn with_id(self, id: u64) -> Self {
        HistoryView { id: id, ..self }
    }
}

impl View for HistoryItem {
    type V = HistoryView;

    open spec fn view(&self) -> HistoryView {
        HistoryView {
            id: self.id,
            video_url: self.video_url@,
            video_id: self.video_id@,
            title: self.title@,
            quality_label: self.quality_label@,
            format: self.format@,
            file_path: self.file_path@,
            file_size: self.file_size,
            downloaded_at: self.downloaded_at,
        }
    }
}

impl HistoryItem {
    /// A copy of this record.
    pub fn duplicate(&self) -> (r: Self)
        ensures
            r == *self,
    {
        HistoryItem {
            id: self.id,
            video_url: self.video_url.clone(),
            video_id: self.video_id.clone(),
            title: self.title.clone(),
            quality_label: self.quality_label.clone(),
            format: self.format.clone(),
            file_path: self.file_path.clone(),
            file_size: self.file_size,
            downloaded_at: self.downloaded_at,
        }
    }
}

/// What a list of task rows holds.
pub open spec fn task_views(rows: Seq<DownloadTaskInfo>) -> Seq<TaskView> {
    rows.map_values(|t: DownloadTaskInfo| t@)
}

/// What a list of history records holds.
pub open spec fn history_views(rows: Seq<HistoryItem>) -> Seq<HistoryView> {
    rows.map_values(|h: HistoryItem| h@)
}

/// One page of the history.
#[derive(Clone, Debug, PartialEq, Eq)]
pub struct HistoryResult {
    pub items: Vec<HistoryItem>,
    pub total_count: u64,
    pub page: u32,
    pub page_size: u32,
}

/// Whether an item was downloaded before or is queued now.
#[derive(Clone, Debug, PartialEq, Eq)]
pub struct DuplicateCheckResult {
    pub in_history: bool,
    pub in_queue: bool,
    pub history_item: Option<HistoryItem>,
}

/// One progress report of the worker.
#[derive(Clone, Debug, PartialEq, Eq)]
pub struct ProgressInfo {
    /// In thousandths of a percent.
    pub percent: u64,
    pub speed: Option<String>,
    pub eta: Option<String>,
}

} // verus!
