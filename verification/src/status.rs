//! The lifecycle state of a download task and its stored text form.

use crate::text::same_text;
use vstd::prelude::*;

verus! {

/// Where a task stands in its lifecycle.
#[derive(Clone, Copy, Debug, PartialEq, Eq, Structural)]
pub enum DownloadStatus {
    Pending,
    Downloading,
    Paused,
    Completed,
    Failed,
    Cancelled,
}

/// The state that a stored text stands for; text that names no state reads as `Pending`.
pub open spec fn status_of_text(s: Seq<char>) -> DownloadStatus {
    if s == "downloading"@ {
        DownloadStatus::Downloading
    } else if s == "paused"@ {
        DownloadStatus::Paused
    } else if s == "completed"@ {
        DownloadStatus::Completed
    } else if s == "failed"@ {
        DownloadStatus::Failed
    } else if s == "cancelled"@ {
        DownloadStatus::Cancelled
    } else {
        DownloadStatus::Pending
    }
}

impl DownloadStatus {
    /// A task in this state will not change again unless it is retried or swept away.
    pub open spec fn is_terminal(self) -> bool {
        self == DownloadStatus::Completed || self == DownloadStatus::Failed || self
            == DownloadStatus::Cancelled
    }

    /// A task in this state may still be cancelled.
    pub open spec fn is_active(self) -> bool {
        self == DownloadStatus::Pending || self == DownloadStatus::Downloading
    }

    /// The stored text of each state.
    pub open spec fn text(self) -> Seq<char> {
        match self {
            DownloadStatus::Pending => "pending"@,
            DownloadStatus::Downloading => "downloading"@,
            DownloadStatus::Paused => "paused"@,
            DownloadStatus::Completed => "completed"@,
            DownloadStatus::Failed => "failed"@,
            DownloadStatus::Cancelled => "cancelled"@,
        }
    }

    /// The stored text of this state.
    pub fn as_str(&self) -> (s: &'static str)
        ensures
            s@ == self.text(),
    {
        match self {
            DownloadStatus::Pending => "pending",
            DownloadStatus::Downloading => "downloading",
            DownloadStatus::Paused => "paused",
            DownloadStatus::Completed => "completed",
            DownloadStatus::Failed => "failed",
            DownloadStatus::Cancelled => "cancelled",
        }
    }

    /// Reads a stored text back; anything unknown is taken as `Pending`.
    pub fn from_str(s: &str) -> (status: DownloadStatus)
        ensures
            status == status_of_text(s@),
    {
        if same_text(s, "downloading") {
            DownloadStatus::Downloading
        } else if same_text(s, "paused") {
            DownloadStatus::Paused
        } else if same_text(s, "completed") {
            DownloadStatus::Completed
        } else if same_text(s, "failed") {
            DownloadStatus::Failed
        } else if same_text(s, "cancelled") {
            DownloadStatus::Cancelled
        } else {
            DownloadStatus::Pending
        }
    }

    /// Whether the task has reached an end state.
    pub fn terminal(&self) -> (b: bool)
        ensures
            b == self.is_terminal(),
    {
        match self {
            DownloadStatus::Completed | DownloadStatus::Failed | DownloadStatus::Cancelled => true,
            _ => false,
        }
    }

    /// Whether the task is waiting or running.
    pub fn active(&self) -> (b: bool)
        ensures
            b == self.is_active(),
    {
        match self {
            DownloadStatus::Pending | DownloadStatus::Downloading => true,
            _ => false,
        }
    }
}

/// Writing a state out and reading it back gives the same state.
pub proof fn lemma_status_text_round_trip(status: DownloadStatus)
    ensures
        status_of_text(status.text()) == status,
{
    reveal_strlit("pending");
    reveal_strlit("downloading");
    reveal_strlit("paused");
    reveal_strlit("completed");
    reveal_strlit("failed");
    reveal_strlit("cancelled");
    let t = status.text();
    match status {
        DownloadStatus::Pending => {
            assert(t.len() == 7);
        },
        DownloadStatus::Downloading => {},
        DownloadStatus::Paused => {
            assert(t.len() == 6);
            assert(t[0] == 'p');
        },
        DownloadStatus::Completed => {
            assert(t.len() == 9);
            assert(t[1] == 'o');
        },
        DownloadStatus::Failed => {
            assert(t.len() == 6);
            assert(t[0] == 'f');
        },
        DownloadStatus::Cancelled => {
            assert(t.len() == 9);
            assert(t[1] == 'a');
        },
    }
}

} // verus!
