//! The task table and the history of finished downloads.
//!
//! The table keeps its rows in the order in which they were inserted. Every
//! row gets an identifier that is larger than any given out before, so an
//! identifier is never used twice, not even after its row was swept away.

use crate::clock::unix_now;
use crate::error::AppError;
use crate::order::SortKey;
use crate::order::arrange;
use crate::order::is_arrangement;
use crate::order::stands_before;
use crate::status::DownloadStatus;
use crate::text::contains;
use crate::text::occurs;
use crate::text::same_text;
use crate::text::to_chars;
use crate::types::DownloadRequest;
use crate::types::DownloadTaskInfo;
use crate::types::DuplicateCheckResult;
use crate::types::HistoryItem;
use crate::types::HistoryResult;
use crate::types::HistoryView;
use crate::types::PERCENT_COMPLETE;
use crate::types::TaskView;
use crate::types::history_views;
use crate::types::task_views;
use vstd::prelude::*;
use vstd::string::StringExecFns;

verus! {

/// The largest identifier that a row can get.
pub const MAX_ROW_ID: u64 = 0x7fff_ffff_ffff_ffff;

/// Identifiers grow along the table, start at one and stay below `next_id`.
pub open spec fn ids_ok(ids: Seq<u64>, next_id: u64) -> bool {
    &&& 1 <= next_id
    &&& forall|i: int| 0 <= i < ids.len() ==> 1 <= #[trigger] ids[i] < next_id
    &&& forall|i: int, j: int| 0 <= i < j < ids.len() ==> ids[i] < ids[j]
}

/// The identifiers of the rows of a task table.
pub open spec fn task_ids(tasks: Seq<TaskView>) -> Seq<u64> {
    tasks.map_values(|t: TaskView| t.id)
}

/// The identifiers of the records of a history.
pub open spec fn history_ids(history: Seq<HistoryView>) -> Seq<u64> {
    history.map_values(|h: HistoryView| h.id)
}

/// The row that an insertion of `req` makes.
pub open spec fn new_task(
    id: u64,
    req: DownloadRequest,
    output_path: Seq<char>,
    created_at: i64,
) -> TaskView {
    TaskView {
        id: id,
        video_url: req.video_url@,
        video_id: req.video_id@,
        title: req.title@,
        format_id: req.format_id@,
        quality_label: req.quality_label@,
        output_path: output_path,
        status: DownloadStatus::Pending,
        progress: 0,
        speed: None,
        eta: None,
        error_message: None,
        created_at: created_at,
        completed_at: None,
    }
}

/// Whether the table holds a row with identifier `id`.
pub open spec fn has_task(tasks: Seq<TaskView>, id: u64) -> bool {
    exists|i: int| 0 <= i < tasks.len() && tasks[i].id == id
}

/// The table after the status and error text of row `id` were set.
pub open spec fn set_status(
    tasks: Seq<TaskView>,
    id: u64,
    status: DownloadStatus,
    error: Option<Seq<char>>,
) -> Seq<TaskView> {
    tasks.map_values(
        |t: TaskView|
            if t.id == id {
                t.with_status(status, error)
            } else {
                t
            },
    )
}

/// The table after the progress of row `id` was set.
pub open spec fn set_progress(
    tasks: Seq<TaskView>,
    id: u64,
    progress: u64,
    speed: Option<Seq<char>>,
    eta: Option<Seq<char>>,
) -> Seq<TaskView> {
    tasks.map_values(
        |t: TaskView|
            if t.id == id {
                t.with_progress(progress, speed, eta)
            } else {
                t
            },
    )
}

/// Whether row `id` is there and marked as running.
pub open spec fn is_running(tasks: Seq<TaskView>, id: u64) -> bool {
    exists|i: int|
        0 <= i < tasks.len() && tasks[i].id == id && tasks[i].status == DownloadStatus::Downloading
}

/// The table after the run of row `id` succeeded at `completed_at`: only a
/// row that is still marked as running is completed.
pub open spec fn succeeded(tasks: Seq<TaskView>, id: u64, completed_at: i64) -> Seq<TaskView> {
    if is_running(tasks, id) {
        set_completed(tasks, id, completed_at)
    } else {
        tasks
    }
}

/// Whether row `id` is there and still waiting or running.
pub open spec fn is_cancellable(tasks: Seq<TaskView>, id: u64) -> bool {
    exists|i: int| 0 <= i < tasks.len() && tasks[i].id == id && tasks[i].status.is_active()
}

/// The table after row `id` was cancelled, if it was still waiting or running.
pub open spec fn cancel_active(tasks: Seq<TaskView>, id: u64) -> Seq<TaskView> {
    tasks.map_values(
        |t: TaskView|
            if t.id == id && t.status.is_active() {
                t.with_only_status(DownloadStatus::Cancelled)
            } else {
                t
            },
    )
}

/// The table after row `id` was marked as completed at `completed_at`.
pub open spec fn set_completed(tasks: Seq<TaskView>, id: u64, completed_at: i64) -> Seq<
    TaskView,
> {
    tasks.map_values(
        |t: TaskView|
            if t.id == id {
                t.completed(completed_at)
            } else {
                t
            },
    )
}

/// Row `i` is waiting, and no waiting row was created before it; among rows
/// created at the same time the one inserted first wins.
pub open spec fn is_oldest_pending(tasks: Seq<TaskView>, i: int) -> bool {
    &&& 0 <= i < tasks.len()
    &&& tasks[i].status == DownloadStatus::Pending
    &&& forall|j: int|
        0 <= j < tasks.len() && tasks[j].status == DownloadStatus::Pending ==> tasks[i].created_at
            < tasks[j].created_at || (tasks[i].created_at == tasks[j].created_at && i <= j)
}

/// Whether some row is waiting.
pub open spec fn has_pending(tasks: Seq<TaskView>) -> bool {
    exists|i: int| 0 <= i < tasks.len() && tasks[i].status == DownloadStatus::Pending
}

/// The place of the oldest waiting row, if any row is waiting.
pub open spec fn oldest_pending(tasks: Seq<TaskView>) -> Option<int> {
    if exists|i: int| is_oldest_pending(tasks, i) {
        Some(choose|i: int| is_oldest_pending(tasks, i))
    } else {
        None
    }
}

/// The table after the oldest waiting row was claimed.
pub open spec fn claimed(tasks: Seq<TaskView>) -> Seq<TaskView> {
    match oldest_pending(tasks) {
        Some(i) => tasks.update(i, tasks[i].with_only_status(DownloadStatus::Downloading)),
        None => tasks,
    }
}

/// At most one row is the oldest waiting one.
pub proof fn lemma_oldest_pending_unique(tasks: Seq<TaskView>, i: int, j: int)
    requires
        is_oldest_pending(tasks, i),
        is_oldest_pending(tasks, j),
    ensures
        i == j,
{
}

/// The oldest waiting row is found exactly when some row is waiting.
pub proof fn lemma_oldest_pending_found(tasks: Seq<TaskView>)
    ensures
        oldest_pending(tasks) is Some <==> has_pending(tasks),
        oldest_pending(tasks) matches Some(i) ==> is_oldest_pending(tasks, i),
    decreases tasks.len(),
{
    if has_pending(tasks) {
        let k = lemma_oldest_among(tasks, tasks.len() as int);
        assert(is_oldest_pending(tasks, k));
    }
    if oldest_pending(tasks) is Some {
        let i = oldest_pending(tasks)->0;
        assert(is_oldest_pending(tasks, i));
    }
}

/// Among the first `n` rows, row `i` is the oldest waiting one.
pub open spec fn is_oldest_among(tasks: Seq<TaskView>, n: int, i: int) -> bool {
    &&& 0 <= i < n <= tasks.len()
    &&& tasks[i].status == DownloadStatus::Pending
    &&& forall|j: int|
        0 <= j < n && tasks[j].status == DownloadStatus::Pending ==> tasks[i].created_at
            < tasks[j].created_at || (tasks[i].created_at == tasks[j].created_at && i <= j)
}

proof fn lemma_oldest_among(tasks: Seq<TaskView>, n: int) -> (k: int)
    requires
        0 <= n <= tasks.len(),
        exists|i: int| 0 <= i < n && tasks[i].status == DownloadStatus::Pending,
    ensures
        is_oldest_among(tasks, n, k),
    decreases n,
{
    let last = n - 1;
    if exists|i: int| 0 <= i < last && tasks[i].status == DownloadStatus::Pending {
        let k0 = lemma_oldest_among(tasks, last);
        if tasks[last].status == DownloadStatus::Pending && tasks[last].created_at
            < tasks[k0].created_at {
            last
        } else {
            k0
        }
    } else {
        last
    }
}

/// The text that a row gets when a restart finds it still marked as running.
pub open spec fn stale_message() -> Seq<char> {
    "App closed during download"@
}

/// The text that goes with an insertion that found no identifier left.
pub open spec fn full_message() -> Seq<char> {
    "no identifier is left for a new row"@
}

/// The text that goes with a count of running rows that does not fit
/// its result.
pub open spec fn count_message() -> Seq<char> {
    "the number of running downloads is too large"@
}

/// How many rows are marked as running.
pub open spec fn downloading_count(tasks: Seq<TaskView>) -> nat {
    tasks.filter(|t: TaskView| t.status == DownloadStatus::Downloading).len()
}

/// How many rows are waiting.
pub open spec fn pending_count(tasks: Seq<TaskView>) -> nat {
    tasks.filter(|t: TaskView| t.status == DownloadStatus::Pending).len()
}

/// The table after every row marked as running was marked as failed.
pub open spec fn fail_stale(tasks: Seq<TaskView>) -> Seq<TaskView> {
    tasks.map_values(
        |t: TaskView|
            if t.status == DownloadStatus::Downloading {
                t.with_status(DownloadStatus::Failed, Some(stale_message()))
            } else {
                t
            },
    )
}

/// The rows that have not ended, in table order.
pub open spec fn without_ended(tasks: Seq<TaskView>) -> Seq<TaskView> {
    tasks.filter(|t: TaskView| !t.status.is_terminal())
}

/// The rows that are waiting or running, in table order.
pub open spec fn active_rows(tasks: Seq<TaskView>) -> Seq<TaskView> {
    tasks.filter(|t: TaskView| t.status.is_active())
}

/// The low 32 bits of a count.
pub open spec fn low32(n: nat) -> u32 {
    (n % 0x1_0000_0000) as u32
}

/// The rows that a batch insertion adds, one for each item.
pub open spec fn batch_rows(
    first_id: u64,
    items: Seq<(DownloadRequest, String)>,
    created_at: i64,
) -> Seq<TaskView> {
    Seq::new(
        items.len(),
        |k: int| new_task((first_id + k) as u64, items[k].0, items[k].1@, created_at),
    )
}

/// Whether a waiting or running row is for the item `video_id`.
pub open spec fn queued(tasks: Seq<TaskView>, video_id: Seq<char>) -> bool {
    exists|i: int|
        0 <= i < tasks.len() && tasks[i].video_id == video_id && tasks[i].status.is_active()
}

/// Record `i` is for the item `video_id`, and no record for it is later;
/// among records of the same time the one inserted last wins.
pub open spec fn is_latest_record(history: Seq<HistoryView>, video_id: Seq<char>, i: int) -> bool {
    &&& 0 <= i < history.len()
    &&& history[i].video_id == video_id
    &&& forall|j: int|
        0 <= j < history.len() && history[j].video_id == video_id ==> history[j].downloaded_at
            < history[i].downloaded_at || (history[j].downloaded_at == history[i].downloaded_at
            && j <= i)
}

/// Whether the history holds a record for the item `video_id`.
pub open spec fn recorded(history: Seq<HistoryView>, video_id: Seq<char>) -> bool {
    exists|i: int| 0 <= i < history.len() && history[i].video_id == video_id
}

/// The history without the record `id`.
pub open spec fn without_record(history: Seq<HistoryView>, id: u64) -> Seq<HistoryView> {
    history.filter(|h: HistoryView| h.id != id)
}

fn low32_of(n: usize) -> (r: u32)
    ensures
        r == low32(n as nat),
{
    let wide: u64 = n as u64;
    let low: u64 = wide & 0xffff_ffff;
    assert(low == wide % 0x1_0000_0000 && low <= 0xffff_ffff) by (bit_vector)
        requires
            low == wide & 0xffff_ffff,
    ;
    low as u32
}

fn full_error() -> (e: AppError)
    ensures
        e matches AppError::DatabaseError(m) && m@ == full_message(),
{
    AppError::DatabaseError(String::from_str("no identifier is left for a new row"))
}

/// What a task row is arranged by: the time it was created at.
pub open spec fn task_key(t: TaskView) -> SortKey {
    SortKey { time: t.created_at, id: t.id }
}

/// What a history record is arranged by: the time of the download.
pub open spec fn history_key(h: HistoryView) -> SortKey {
    SortKey { time: h.downloaded_at, id: h.id }
}

/// `rows` holds the rows of `selected` and no others, arranged by the time
/// they were created at: oldest first, or newest first. Rows of the same
/// time stand in the order of their identifiers, or against it.
pub open spec fn is_task_arrangement(
    rows: Seq<TaskView>,
    selected: Seq<TaskView>,
    newest_first: bool,
) -> bool {
    &&& rows.len() == selected.len()
    &&& forall|k: int| 0 <= k < rows.len() ==> selected.contains(#[trigger] rows[k])
    &&& forall|j: int| 0 <= j < selected.len() ==> rows.contains(#[trigger] selected[j])
    &&& forall|x: int, y: int|
        0 <= x < y < rows.len() ==> stands_before(
            task_key(rows[x]),
            task_key(rows[y]),
            newest_first,
        )
}

/// `rows` holds the records of `selected` and no others, the latest
/// download first. Records of the same time stand against the order of
/// their identifiers.
pub open spec fn is_history_arrangement(
    rows: Seq<HistoryView>,
    selected: Seq<HistoryView>,
) -> bool {
    &&& rows.len() == selected.len()
    &&& forall|k: int| 0 <= k < rows.len() ==> selected.contains(#[trigger] rows[k])
    &&& forall|j: int| 0 <= j < selected.len() ==> rows.contains(#[trigger] selected[j])
    &&& forall|x: int, y: int|
        0 <= x < y < rows.len() ==> stands_before(history_key(rows[x]), history_key(rows[y]), true)
}

/// A letter of the English alphabet as a small letter, any other
/// character as it is.
pub open spec fn ascii_lower(c: char) -> char {
    if 'A' <= c && c <= 'Z' {
        ((c as u8 + 32) as u8) as char
    } else {
        c
    }
}

/// A text with its English letters made small.
pub open spec fn folded(s: Seq<char>) -> Seq<char> {
    s.map_values(|c: char| ascii_lower(c))
}

/// Whether a title is found by a search: any title where nothing is
/// searched for, else one that holds the words searched for, small and
/// capital English letters taken as the same.
pub open spec fn title_matches(title: Seq<char>, search: Option<Seq<char>>) -> bool {
    match search {
        Some(words) => occurs(folded(title), folded(words)),
        None => true,
    }
}

/// The records that a search finds, in table order.
pub open spec fn matching_records(history: Seq<HistoryView>, search: Option<Seq<char>>) -> Seq<
    HistoryView,
> {
    history.filter(|h: HistoryView| title_matches(h.title, search))
}

/// The number of records on a page: what was asked for, but one at least
/// and a hundred at most.
pub open spec fn page_size_of(asked: u32) -> u32 {
    if asked < 1 {
        1
    } else if asked > 100 {
        100
    } else {
        asked
    }
}

/// Page `page` of `rows`, with `size` rows to the page; the first page is
/// page zero. A page beyond the end is empty.
pub open spec fn page_of(rows: Seq<HistoryView>, page: u32, size: u32) -> Seq<HistoryView> {
    let from = if page * size <= rows.len() {
        page * size
    } else {
        rows.len() as int
    };
    let to = if from + size <= rows.len() {
        from + size
    } else {
        rows.len() as int
    };
    rows.subrange(from, to)
}

/// `items` is page `page` of the records of `selected`, the latest
/// download first, with `size` records to the page.
pub open spec fn is_history_page(
    items: Seq<HistoryView>,
    selected: Seq<HistoryView>,
    page: u32,
    size: u32,
) -> bool {
    exists|arranged: Seq<HistoryView>|
        #[trigger] is_history_arrangement(arranged, selected) && items == page_of(
            arranged,
            page,
            size,
        )
}

fn lower(c: char) -> (r: char)
    ensures
        r == ascii_lower(c),
{
    if 'A' <= c && c <= 'Z' {
        ((c as u8) + 32) as char
    } else {
        c
    }
}

fn fold(s: &str) -> (v: Vec<char>)
    ensures
        v@ == folded(s@),
{
    let chars = to_chars(s);
    let mut v: Vec<char> = Vec::new();
    let mut i: usize = 0;
    while i < chars.len()
        invariant
            i <= chars@.len(),
            chars@ == s@,
            v@ == folded(s@).take(i as int),
        decreases chars@.len() - i,
    {
        v.push(lower(chars[i]));
        assert(v@ =~= folded(s@).take(i + 1));
        i += 1;
    }
    assert(folded(s@).take(i as int) =~= folded(s@));
    v
}

/// The rows of `rows` arranged by the time they were created at.
fn arrange_tasks(rows: &Vec<DownloadTaskInfo>, newest_first: bool) -> (out: Vec<DownloadTaskInfo>)
    requires
        forall|i: int, j: int|
            0 <= i < rows@.len() && 0 <= j < rows@.len() && rows@[i].id == rows@[j].id ==> i == j,
    ensures
        is_task_arrangement(task_views(out@), task_views(rows@), newest_first),
{
    let mut keys: Vec<SortKey> = Vec::new();
    let mut i: usize = 0;
    while i < rows.len()
        invariant
            i <= rows@.len(),
            keys@.len() == i,
            forall|k: int| 0 <= k < i ==> keys@[k] == task_key(rows@[k]@),
        decreases rows@.len() - i,
    {
        keys.push(SortKey { time: rows[i].created_at, id: rows[i].id });
        i += 1;
    }
    let order = arrange(&keys, newest_first);
    let mut out: Vec<DownloadTaskInfo> = Vec::new();
    let mut k: usize = 0;
    while k < order.len()
        invariant
            k <= order@.len(),
            out@.len() == k,
            is_arrangement(keys@, order@, newest_first),
            keys@.len() == rows@.len(),
            forall|x: int| 0 <= x < k ==> out@[x] == rows@[order@[x] as int],
        decreases order@.len() - k,
    {
        out.push(rows[order[k]].duplicate());
        k += 1;
    }
    proof {
        let a = task_views(out@);
        let b = task_views(rows@);
        assert forall|x: int| 0 <= x < a.len() implies b.contains(#[trigger] a[x]) by {
            assert(b[order@[x] as int] == a[x]);
        }
        assert forall|j: int| 0 <= j < b.len() implies a.contains(#[trigger] b[j]) by {
            assert(order@.contains(j as usize));
            let x = choose|x: int| 0 <= x < order@.len() && order@[x] == j as usize;
            assert(a[x] == b[j]);
        }
        assert forall|x: int, y: int| 0 <= x < y < a.len() implies stands_before(
            task_key(a[x]),
            task_key(a[y]),
            newest_first,
        ) by {
            assert(keys@[order@[x] as int] == task_key(a[x]));
            assert(keys@[order@[y] as int] == task_key(a[y]));
        }
    }
    out
}

/// The records of `rows` with the latest download first.
fn arrange_history(rows: &Vec<HistoryItem>) -> (out: Vec<HistoryItem>)
    requires
        forall|i: int, j: int|
            0 <= i < rows@.len() && 0 <= j < rows@.len() && rows@[i].id == rows@[j].id ==> i == j,
    ensures
        is_history_arrangement(history_views(out@), history_views(rows@)),
{
    let mut keys: Vec<SortKey> = Vec::new();
    let mut i: usize = 0;
    while i < rows.len()
        invariant
            i <= rows@.len(),
            keys@.len() == i,
            forall|k: int| 0 <= k < i ==> keys@[k] == history_key(rows@[k]@),
        decreases rows@.len() - i,
    {
        keys.push(SortKey { time: rows[i].downloaded_at, id: rows[i].id });
        i += 1;
    }
    let order = arrange(&keys, true);
    let mut out: Vec<HistoryItem> = Vec::new();
    let mut k: usize = 0;
    while k < order.len()
        invariant
            k <= order@.len(),
            out@.len() == k,
            is_arrangement(keys@, order@, true),
            keys@.len() == rows@.len(),
            forall|x: int| 0 <= x < k ==> out@[x] == rows@[order@[x] as int],
        decreases order@.len() - k,
    {
        out.push(rows[order[k]].duplicate());
        k += 1;
    }
    proof {
        let a = history_views(out@);
        let b = history_views(rows@);
        assert forall|x: int| 0 <= x < a.len() implies b.contains(#[trigger] a[x]) by {
            assert(b[order@[x] as int] == a[x]);
        }
        assert forall|j: int| 0 <= j < b.len() implies a.contains(#[trigger] b[j]) by {
            assert(order@.contains(j as usize));
            let x = choose|x: int| 0 <= x < order@.len() && order@[x] == j as usize;
            assert(a[x] == b[j]);
        }
        assert forall|x: int, y: int| 0 <= x < y < a.len() implies stands_before(
            history_key(a[x]),
            history_key(a[y]),
            true,
        ) by {
            assert(keys@[order@[x] as int] == history_key(a[x]));
            assert(keys@[order@[y] as int] == history_key(a[y]));
        }
    }
    out
}

/// A task row as it is kept outside the store: the status as text.
#[derive(Clone, Debug, PartialEq, Eq)]
pub struct StoredTask {
    pub id: u64,
    pub video_url: String,
    pub video_id: String,
    pub title: String,
    pub format_id: String,
    pub quality_label: String,
    pub output_path: String,
    pub status: String,
    /// In thousandths of a percent.
    pub progress: u64,
    pub speed: Option<String>,
    pub eta: Option<String>,
    pub error_message: Option<String>,
    pub created_at: i64,
    pub completed_at: Option<i64>,
}

/// The task row that a kept row stands for. A status text that names no
/// state reads as waiting.
pub fn map_download_row(row: StoredTask) -> (task: DownloadTaskInfo)
    ensures
        task@ == (TaskView {
            id: row.id,
            video_url: row.video_url@,
            video_id: row.video_id@,
            title: row.title@,
            format_id: row.format_id@,
            quality_label: row.quality_label@,
            output_path: row.output_path@,
            status: crate::status::status_of_text(row.status@),
            progress: row.progress,
            speed: crate::types::opt_text(row.speed),
            eta: crate::types::opt_text(row.eta),
            error_message: crate::types::opt_text(row.error_message),
            created_at: row.created_at,
            completed_at: row.completed_at,
        }),
{
    let status = DownloadStatus::from_str(row.status.as_str());
    DownloadTaskInfo {
        id: row.id,
        video_url: row.video_url,
        video_id: row.video_id,
        title: row.title,
        format_id: row.format_id,
        quality_label: row.quality_label,
        output_path: row.output_path,
        status,
        progress: row.progress,
        speed: row.speed,
        eta: row.eta,
        error_message: row.error_message,
        created_at: row.created_at,
        completed_at: row.completed_at,
    }
}

/// The task table and the history of finished downloads.
pub struct Database {
    tasks: Vec<DownloadTaskInfo>,
    history: Vec<HistoryItem>,
    next_task_id: u64,
    next_history_id: u64,
}

impl Database {
    /// The rows of the task table, in the order of insertion.
    pub closed spec fn tasks(&self) -> Seq<TaskView> {
        task_views(self.tasks@)
    }

    /// The records of the history, in the order of insertion.
    pub closed spec fn history(&self) -> Seq<HistoryView> {
        history_views(self.history@)
    }

    /// The identifier that the next task row gets.
    pub closed spec fn next_task_id(&self) -> u64 {
        self.next_task_id
    }

    /// The identifier that the next history record gets.
    pub closed spec fn next_history_id(&self) -> u64 {
        self.next_history_id
    }

    /// In both tables the identifiers grow and stay below the next one.
    pub open spec fn wf(&self) -> bool {
        &&& ids_ok(task_ids(self.tasks()), self.next_task_id())
        &&& ids_ok(history_ids(self.history()), self.next_history_id())
    }

    /// An empty store.
    pub fn new() -> (db: Self)
        ensures
            db.wf(),
            db.tasks() == Seq::<TaskView>::empty(),
            db.history() == Seq::<HistoryView>::empty(),
            db.next_task_id() == 1,
            db.next_history_id() == 1,
    {
        let db = Database {
            tasks: Vec::new(),
            history: Vec::new(),
            next_task_id: 1,
            next_history_id: 1,
        };
        assert(db.tasks() =~= Seq::<TaskView>::empty());
        assert(db.history() =~= Seq::<HistoryView>::empty());
        db
    }

    /// Every row of the task table, in the order of insertion.
    pub fn all_tasks(&self) -> (rows: Vec<DownloadTaskInfo>)
        ensures
            task_views(rows@) == self.tasks(),
    {
        let mut rows: Vec<DownloadTaskInfo> = Vec::new();
        let mut i: usize = 0;
        while i < self.tasks.len()
            invariant
                i <= self.tasks@.len(),
                self.tasks().len() == self.tasks@.len(),
                task_views(rows@) == self.tasks().take(i as int),
            decreases self.tasks@.len() - i,
        {
            let ghost before = task_views(rows@);
            rows.push(self.tasks[i].duplicate());
            assert(task_views(rows@) =~= before.push(self.tasks@[i as int]@));
            assert(self.tasks()[i as int] == self.tasks@[i as int]@);
            assert(task_views(rows@) =~= self.tasks().take(i + 1));
            i += 1;
        }
        assert(self.tasks().take(i as int) =~= self.tasks());
        rows
    }

    /// Every record of the history, in the order of insertion.
    pub fn all_history(&self) -> (rows: Vec<HistoryItem>)
        ensures
            history_views(rows@) == self.history(),
    {
        let mut rows: Vec<HistoryItem> = Vec::new();
        let mut i: usize = 0;
        while i < self.history.len()
            invariant
                i <= self.history@.len(),
                self.history().len() == self.history@.len(),
                history_views(rows@) == self.history().take(i as int),
            decreases self.history@.len() - i,
        {
            let ghost before = history_views(rows@);
            rows.push(self.history[i].duplicate());
            assert(history_views(rows@) =~= before.push(self.history@[i as int]@));
            assert(self.history()[i as int] == self.history@[i as int]@);
            assert(history_views(rows@) =~= self.history().take(i + 1));
            i += 1;
        }
        assert(self.history().take(i as int) =~= self.history());
        rows
    }

    /// The identifiers that the next task row and the next history record
    /// will get.
    pub fn next_ids(&self) -> (ids: (u64, u64))
        ensures
            ids.0 == self.next_task_id(),
            ids.1 == self.next_history_id(),
    {
        (self.next_task_id, self.next_history_id)
    }

    /// A store that holds the given rows and records, as they were kept
    /// elsewhere. They are taken only if in both lists the identifiers
    /// grow, start at one and stay below the next identifier given.
    pub fn restore(
        tasks: Vec<DownloadTaskInfo>,
        history: Vec<HistoryItem>,
        next_task_id: u64,
        next_history_id: u64,
    ) -> (r: Option<Self>)
        ensures
            r is Some <==> ids_ok(task_ids(task_views(tasks@)), next_task_id) && ids_ok(
                history_ids(history_views(history@)),
                next_history_id,
            ),
            r matches Some(db) ==> {
                &&& db.wf()
                &&& db.tasks() == task_views(tasks@)
                &&& db.history() == history_views(history@)
                &&& db.next_task_id() == next_task_id
                &&& db.next_history_id() == next_history_id
            },
    {
        let ghost tids = task_ids(task_views(tasks@));
        let ghost hids = history_ids(history_views(history@));
        if next_task_id < 1 || next_history_id < 1 {
            return None;
        }
        let mut i: usize = 0;
        while i < tasks.len()
            invariant
                i <= tasks@.len(),
                tids == task_ids(task_views(tasks@)),
                tids.len() == tasks@.len(),
                1 <= next_task_id,
                forall|k: int| 0 <= k < i ==> 1 <= #[trigger] tids[k] < next_task_id,
                forall|a: int, b: int| 0 <= a < b < i ==> tids[a] < tids[b],
            decreases tasks@.len() - i,
        {
            let id = tasks[i].id;
            assert(tids[i as int] == id);
            if id < 1 || id >= next_task_id {
                return None;
            }
            if i > 0 {
                assert(tids[i - 1] == tasks@[i - 1].id);
                if tasks[i - 1].id >= id {
                    return None;
                }
            }
            i += 1;
        }
        let mut j: usize = 0;
        while j < history.len()
            invariant
                j <= history@.len(),
                hids == history_ids(history_views(history@)),
                hids.len() == history@.len(),
                1 <= next_history_id,
                ids_ok(tids, next_task_id),
                forall|k: int| 0 <= k < j ==> 1 <= #[trigger] hids[k] < next_history_id,
                forall|a: int, b: int| 0 <= a < b < j ==> hids[a] < hids[b],
            decreases history@.len() - j,
        {
            let id = history[j].id;
            assert(hids[j as int] == id);
            if id < 1 || id >= next_history_id {
                return None;
            }
            if j > 0 {
                assert(hids[j - 1] == history@[j - 1].id);
                if history[j - 1].id >= id {
                    return None;
                }
            }
            j += 1;
        }
        Some(Database { tasks, history, next_task_id, next_history_id })
    }

    /// Every row of the task table, the one created last first.
    pub fn get_download_queue(&self) -> (rows: Vec<DownloadTaskInfo>)
        requires
            self.wf(),
        ensures
            is_task_arrangement(task_views(rows@), self.tasks(), true),
    {
        proof {
            lemma_ids_distinct(self.tasks(), self.next_task_id());
            assert forall|i: int, j: int|
                0 <= i < self.tasks@.len() && 0 <= j < self.tasks@.len() && self.tasks@[i].id
                    == self.tasks@[j].id implies i == j by {
                assert(self.tasks()[i].id == self.tasks@[i].id);
                assert(self.tasks()[j].id == self.tasks@[j].id);
            }
        }
        arrange_tasks(&self.tasks, true)
    }

    /// The rows that are waiting or running, the one created first first.
    pub fn get_active_downloads(&self) -> (rows: Vec<DownloadTaskInfo>)
        requires
            self.wf(),
        ensures
            is_task_arrangement(task_views(rows@), active_rows(self.tasks()), false),
    {
        let ghost pred = |t: TaskView| t.status.is_active();
        let mut active: Vec<DownloadTaskInfo> = Vec::new();
        let mut i: usize = 0;
        assert(self.tasks().take(0).filter(pred) =~= Seq::<TaskView>::empty()) by {
            reveal(Seq::filter);
        }
        while i < self.tasks.len()
            invariant
                i <= self.tasks@.len(),
                self.tasks().len() == self.tasks@.len(),
                pred == |t: TaskView| t.status.is_active(),
                task_views(active@) == self.tasks().take(i as int).filter(pred),
            decreases self.tasks@.len() - i,
        {
            proof {
                let t = self.tasks();
                assert(t.take(i + 1) =~= t.take(i as int).push(t[i as int]));
                Seq::lemma_filter_push(t.take(i as int), t[i as int], pred);
                assert(t[i as int] == self.tasks@[i as int]@);
            }
            if self.tasks[i].status.active() {
                let ghost before = task_views(active@);
                active.push(self.tasks[i].duplicate());
                assert(task_views(active@) =~= before.push(self.tasks@[i as int]@));
            }
            i += 1;
        }
        proof {
            assert(self.tasks().take(i as int) =~= self.tasks());
            lemma_ids_grow(self.tasks(), self.next_task_id());
            lemma_filter_keeps_order(self.tasks(), pred);
            let f = task_views(active@);
            assert forall|a: int, b: int|
                0 <= a < active@.len() && 0 <= b < active@.len() && active@[a].id
                    == active@[b].id implies a == b by {
                assert(f[a].id == active@[a].id);
                assert(f[b].id == active@[b].id);
                if a < b {
                    assert(f[a].id < f[b].id);
                }
                if b < a {
                    assert(f[b].id < f[a].id);
                }
            }
        }
        arrange_tasks(&active, false)
    }

    /// One page of the history, the latest download first. With words to
    /// search for, only the records whose title holds them count.
    pub fn get_history(&self, page: u32, page_size: u32, search: Option<&str>) -> (r: HistoryResult)
        requires
            self.wf(),
        ensures
            r.page == page,
            r.page_size == page_size_of(page_size),
            r.total_count == matching_records(
                self.history(),
                match search {
                    Some(s) => Some(s@),
                    None => None,
                },
            ).len(),
            is_history_page(
                history_views(r.items@),
                matching_records(
                    self.history(),
                    match search {
                        Some(s) => Some(s@),
                        None => None,
                    },
                ),
                page,
                r.page_size,
            ),
    {
        let size: u32 = if page_size < 1 {
            1
        } else if page_size > 100 {
            100
        } else {
            page_size
        };
        let ghost words: Option<Seq<char>> = match search {
            Some(s) => Some(s@),
            None => None,
        };
        let ghost pred = |h: HistoryView| title_matches(h.title, words);
        let needle: Option<Vec<char>> = match search {
            Some(s) => Some(fold(s)),
            None => None,
        };
        let mut found: Vec<HistoryItem> = Vec::new();
        let mut i: usize = 0;
        assert(self.history().take(0).filter(pred) =~= Seq::<HistoryView>::empty()) by {
            reveal(Seq::filter);
        }
        while i < self.history.len()
            invariant
                i <= self.history@.len(),
                self.history().len() == self.history@.len(),
                pred == |h: HistoryView| title_matches(h.title, words),
                match needle {
                    Some(n) => words matches Some(w) && n@ == folded(w),
                    None => words is None,
                },
                history_views(found@) == self.history().take(i as int).filter(pred),
            decreases self.history@.len() - i,
        {
            proof {
                let t = self.history();
                assert(t.take(i + 1) =~= t.take(i as int).push(t[i as int]));
                Seq::lemma_filter_push(t.take(i as int), t[i as int], pred);
                assert(t[i as int] == self.history@[i as int]@);
            }
            let hit = match &needle {
                Some(n) => contains(&fold(self.history[i].title.as_str()), n),
                None => true,
            };
            if hit {
                let ghost before = history_views(found@);
                found.push(self.history[i].duplicate());
                assert(history_views(found@) =~= before.push(self.history@[i as int]@));
            }
            i += 1;
        }
        proof {
            assert(self.history().take(i as int) =~= self.history());
            lemma_history_filter_keeps_order(self.history(), pred);
            let f = history_views(found@);
            let ids = history_ids(self.history());
            assert forall|a: int, b: int|
                0 <= a < found@.len() && 0 <= b < found@.len() && found@[a].id
                    == found@[b].id implies a == b by {
                assert(f[a].id == found@[a].id);
                assert(f[b].id == found@[b].id);
                if a < b {
                    assert(f[a].id < f[b].id);
                }
                if b < a {
                    assert(f[b].id < f[a].id);
                }
            }
        }
        let arranged = arrange_history(&found);
        let total = arranged.len();
        assert((page as u64) * (size as u64) <= 0xffff_ffff * 100) by (nonlinear_arith)
            requires
                page <= 0xffff_ffff,
                size <= 100,
        ;
        let offset: u64 = (page as u64) * (size as u64);
        let from: usize = if offset <= total as u64 {
            offset as usize
        } else {
            total
        };
        let to: usize = if total - from >= size as usize {
            from + size as usize
        } else {
            total
        };
        let mut items: Vec<HistoryItem> = Vec::new();
        let mut k: usize = from;
        while k < to
            invariant
                from <= k <= to <= arranged@.len(),
                history_views(items@) == history_views(arranged@).subrange(from as int, k as int),
            decreases to - k,
        {
            let ghost before = history_views(items@);
            items.push(arranged[k].duplicate());
            assert(history_views(items@) =~= before.push(arranged@[k as int]@));
            assert(history_views(items@) =~= history_views(arranged@).subrange(
                from as int,
                k + 1,
            ));
            k += 1;
        }
        proof {
            let arr = history_views(arranged@);
            assert(history_views(found@) == matching_records(self.history(), words));
            assert(is_history_arrangement(arr, matching_records(self.history(), words)));
            assert(offset == page * size);
            assert(history_views(items@) == page_of(arr, page, size));
            assert(is_history_page(
                history_views(items@),
                matching_records(self.history(), words),
                page,
                size,
            ));
        }
        HistoryResult { items, total_count: total as u64, page, page_size: size }
    }

    /// Where row `id` stands, if it is there.
    fn find(&self, id: u64) -> (at: Option<usize>)
        ensures
            match at {
                Some(i) => i < self.tasks().len() && self.tasks()[i as int].id == id,
                None => !has_task(self.tasks(), id),
            },
    {
        let mut i: usize = 0;
        while i < self.tasks.len()
            invariant
                i <= self.tasks@.len(),
                self.tasks().len() == self.tasks@.len(),
                forall|k: int| 0 <= k < i ==> self.tasks()[k].id != id,
            decreases self.tasks@.len() - i,
        {
            if self.tasks[i].id == id {
                return Some(i);
            }
            i += 1;
        }
        None
    }

    /// Adds a waiting row for `req`, created now by the machine's clock, and
    /// gives its identifier. It fails, and changes nothing, only when the
    /// identifiers have run out.
    pub fn insert_download(&mut self, req: &DownloadRequest, output_path: &str) -> (r: Result<
        u64,
        AppError,
    >)
        requires
            old(self).wf(),
        ensures
            final(self).wf(),
            final(self).history() == old(self).history(),
            final(self).next_history_id() == old(self).next_history_id(),
            r is Ok <==> old(self).next_task_id() <= MAX_ROW_ID,
            match r {
                Ok(id) => {
                    &&& id == old(self).next_task_id()
                    &&& final(self).next_task_id() == id + 1
                    &&& exists|created_at: i64|
                        final(self).tasks() == old(self).tasks().push(
                            #[trigger] new_task(id, *req, output_path@, created_at),
                        )
                },
                Err(e) => {
                    &&& e matches AppError::DatabaseError(m)
                    &&& m@ == full_message()
                    &&& final(self).tasks() == old(self).tasks()
                    &&& final(self).next_task_id() == old(self).next_task_id()
                },
            },
    {
        let created_at = unix_now();
        self.insert_download_at(req, output_path, created_at)
    }

    /// Adds a waiting row for `req`, created at `created_at`, and gives its
    /// identifier. It fails, and changes nothing, only when the identifiers
    /// have run out.
    pub fn insert_download_at(
        &mut self,
        req: &DownloadRequest,
        output_path: &str,
        created_at: i64,
    ) -> (r: Result<u64, AppError>)
        requires
            old(self).wf(),
        ensures
            final(self).wf(),
            final(self).history() == old(self).history(),
            final(self).next_history_id() == old(self).next_history_id(),
            r is Ok <==> old(self).next_task_id() <= MAX_ROW_ID,
            match r {
                Ok(id) => {
                    &&& id == old(self).next_task_id()
                    &&& final(self).next_task_id() == id + 1
                    &&& final(self).tasks() == old(self).tasks().push(
                        new_task(id, *req, output_path@, created_at),
                    )
                },
                Err(e) => {
                    &&& e matches AppError::DatabaseError(m)
                    &&& m@ == full_message()
                    &&& final(self).tasks() == old(self).tasks()
                    &&& final(self).next_task_id() == old(self).next_task_id()
                },
            },
    {
        if self.next_task_id > MAX_ROW_ID {
            return Err(full_error());
        }
        let id = self.next_task_id;
        let row = DownloadTaskInfo {
            id,
            video_url: req.video_url.clone(),
            video_id: req.video_id.clone(),
            title: req.title.clone(),
            format_id: req.format_id.clone(),
            quality_label: req.quality_label.clone(),
            output_path: String::from_str(output_path),
            status: DownloadStatus::Pending,
            progress: 0,
            speed: None,
            eta: None,
            error_message: None,
            created_at,
            completed_at: None,
        };
        self.tasks.push(row);
        self.next_task_id = id + 1;
        proof {
            assert(self.tasks() =~= old(self).tasks().push(
                new_task(id, *req, output_path@, created_at),
            ));
            let ids = task_ids(self.tasks());
            let before = task_ids(old(self).tasks());
            assert forall|i: int| 0 <= i < ids.len() implies 1 <= #[trigger] ids[i]
                < self.next_task_id() by {
                if i < before.len() {
                    assert(ids[i] == before[i]);
                }
            }
            assert forall|i: int, j: int| 0 <= i < j < ids.len() implies ids[i] < ids[j] by {
                assert(ids[i] == before[i]);
                if j < before.len() {
                    assert(ids[j] == before[j]);
                }
            }
        }
        Ok(id)
    }

    /// The row with identifier `id`, if there is one.
    pub fn get_download(&self, id: u64) -> (r: Option<DownloadTaskInfo>)
        ensures
            r is Some <==> has_task(self.tasks(), id),
            r matches Some(t) ==> t.id == id && exists|i: int|
                0 <= i < self.tasks().len() && self.tasks()[i] == t@,
    {
        match self.find(id) {
            Some(i) => {
                let t = self.tasks[i].duplicate();
                assert(self.tasks()[i as int] == t@);
                Some(t)
            },
            None => None,
        }
    }

    /// Puts row `at` in place of the one that stands there.
    fn replace(&mut self, at: usize, row: DownloadTaskInfo)
        requires
            old(self).wf(),
            at < old(self).tasks().len(),
            row.id == old(self).tasks()[at as int].id,
        ensures
            final(self).wf(),
            final(self).tasks() == old(self).tasks().update(at as int, row@),
            final(self).history() == old(self).history(),
            final(self).next_task_id() == old(self).next_task_id(),
            final(self).next_history_id() == old(self).next_history_id(),
    {
        self.tasks.set(at, row);
        proof {
            assert(self.tasks() =~= old(self).tasks().update(at as int, row@));
            assert(task_ids(self.tasks()) =~= task_ids(old(self).tasks()));
        }
    }

    /// Sets the status and the error text of row `id`. Without such a row
    /// nothing changes.
    pub fn update_download_status(
        &mut self,
        id: u64,
        status: &DownloadStatus,
        error_msg: Option<&str>,
    )
        requires
            old(self).wf(),
        ensures
            final(self).wf(),
            final(self).tasks() == set_status(
                old(self).tasks(),
                id,
                *status,
                match error_msg {
                    Some(m) => Some(m@),
                    None => None,
                },
            ),
            final(self).history() == old(self).history(),
            final(self).next_task_id() == old(self).next_task_id(),
            final(self).next_history_id() == old(self).next_history_id(),
    {
        let ghost error: Option<Seq<char>> = match error_msg {
            Some(m) => Some(m@),
            None => None,
        };
        match self.find(id) {
            Some(i) => {
                let mut row = self.tasks[i].duplicate();
                row.status = *status;
                row.error_message = match error_msg {
                    Some(m) => Some(String::from_str(m)),
                    None => None,
                };
                self.replace(i, row);
                proof {
                    lemma_single_row_change(
                        old(self).tasks(),
                        i as int,
                        set_status(old(self).tasks(), id, *status, error),
                    );
                }
            },
            None => {
                assert(self.tasks() =~= set_status(old(self).tasks(), id, *status, error));
            },
        }
    }

    /// Sets the progress of row `id`. Without such a row nothing changes.
    pub fn update_download_progress(
        &mut self,
        id: u64,
        progress: u64,
        speed: Option<&str>,
        eta: Option<&str>,
    )
        requires
            old(self).wf(),
        ensures
            final(self).wf(),
            final(self).tasks() == set_progress(
                old(self).tasks(),
                id,
                progress,
                match speed {
                    Some(m) => Some(m@),
                    None => None,
                },
                match eta {
                    Some(m) => Some(m@),
                    None => None,
                },
            ),
            final(self).history() == old(self).history(),
            final(self).next_task_id() == old(self).next_task_id(),
            final(self).next_history_id() == old(self).next_history_id(),
    {
        let ghost sp: Option<Seq<char>> = match speed {
            Some(m) => Some(m@),
            None => None,
        };
        let ghost et: Option<Seq<char>> = match eta {
            Some(m) => Some(m@),
            None => None,
        };
        match self.find(id) {
            Some(i) => {
                let mut row = self.tasks[i].duplicate();
                row.progress = progress;
                row.speed = match speed {
                    Some(m) => Some(String::from_str(m)),
                    None => None,
                };
                row.eta = match eta {
                    Some(m) => Some(String::from_str(m)),
                    None => None,
                };
                self.replace(i, row);
                proof {
                    lemma_single_row_change(
                        old(self).tasks(),
                        i as int,
                        set_progress(old(self).tasks(), id, progress, sp, et),
                    );
                }
            },
            None => {
                assert(self.tasks() =~= set_progress(old(self).tasks(), id, progress, sp, et));
            },
        }
    }

    /// Cancels row `id` if it is still waiting or running, and says whether
    /// it did. A row that has ended, or no row, is left as it is.
    pub fn cancel_if_active(&mut self, id: u64) -> (cancelled: bool)
        requires
            old(self).wf(),
        ensures
            final(self).wf(),
            cancelled == is_cancellable(old(self).tasks(), id),
            final(self).tasks() == cancel_active(old(self).tasks(), id),
            !cancelled ==> final(self).tasks() == old(self).tasks(),
            final(self).history() == old(self).history(),
            final(self).next_task_id() == old(self).next_task_id(),
            final(self).next_history_id() == old(self).next_history_id(),
    {
        match self.find(id) {
            Some(i) => {
                if self.tasks[i].status.active() {
                    let mut row = self.tasks[i].duplicate();
                    row.status = DownloadStatus::Cancelled;
                    self.replace(i, row);
                    proof {
                        lemma_single_row_change(
                            old(self).tasks(),
                            i as int,
                            cancel_active(old(self).tasks(), id),
                        );
                    }
                    true
                } else {
                    proof {
                        lemma_ids_distinct(old(self).tasks(), old(self).next_task_id());
                        assert(self.tasks() =~= cancel_active(old(self).tasks(), id));
                    }
                    false
                }
            },
            None => {
                assert(self.tasks() =~= cancel_active(old(self).tasks(), id));
                false
            },
        }
    }

    /// Marks row `id` as completed at `completed_at`, with full progress.
    /// Without such a row nothing changes. It is for the completion that
    /// records the download in the same step, and for no other use.
    fn mark_completed(&mut self, id: u64, completed_at: i64)
        requires
            old(self).wf(),
        ensures
            final(self).wf(),
            final(self).tasks() == set_completed(old(self).tasks(), id, completed_at),
            final(self).history() == old(self).history(),
            final(self).next_task_id() == old(self).next_task_id(),
            final(self).next_history_id() == old(self).next_history_id(),
    {
        match self.find(id) {
            Some(i) => {
                let mut row = self.tasks[i].duplicate();
                row.status = DownloadStatus::Completed;
                row.completed_at = Some(completed_at);
                row.progress = PERCENT_COMPLETE;
                self.replace(i, row);
                proof {
                    lemma_single_row_change(
                        old(self).tasks(),
                        i as int,
                        set_completed(old(self).tasks(), id, completed_at),
                    );
                }
            },
            None => {
                assert(self.tasks() =~= set_completed(old(self).tasks(), id, completed_at));
            },
        }
    }

    /// Where the oldest waiting row stands, if any row is waiting.
    fn find_oldest_pending(&self) -> (at: Option<usize>)
        ensures
            match at {
                Some(i) => oldest_pending(self.tasks()) == Some(i as int),
                None => oldest_pending(self.tasks()) is None,
            },
    {
        let mut best: Option<usize> = None;
        let mut i: usize = 0;
        while i < self.tasks.len()
            invariant
                i <= self.tasks@.len(),
                self.tasks().len() == self.tasks@.len(),
                forall|k: int| 0 <= k < self.tasks@.len() ==> self.tasks()[k] == self.tasks@[k]@,
                match best {
                    Some(b) => is_oldest_among(self.tasks(), i as int, b as int),
                    None => forall|k: int|
                        0 <= k < i ==> self.tasks()[k].status != DownloadStatus::Pending,
                },
            decreases self.tasks@.len() - i,
        {
            if self.tasks[i].status == DownloadStatus::Pending {
                match best {
                    Some(b) => {
                        if self.tasks[i].created_at < self.tasks[b].created_at {
                            best = Some(i);
                        }
                    },
                    None => {
                        best = Some(i);
                    },
                }
            }
            i += 1;
        }
        proof {
            match best {
                Some(b) => {
                    assert(is_oldest_pending(self.tasks(), b as int));
                    let c = choose|c: int| is_oldest_pending(self.tasks(), c);
                    lemma_oldest_pending_unique(self.tasks(), b as int, c);
                },
                None => {
                    assert forall|c: int| !is_oldest_pending(self.tasks(), c) by {}
                },
            }
        }
        best
    }

    /// The oldest waiting row, if any row is waiting. Nothing changes.
    pub fn get_next_pending(&self) -> (r: Option<DownloadTaskInfo>)
        ensures
            r is Some <==> has_pending(self.tasks()),
            r matches Some(t) ==> oldest_pending(self.tasks()) matches Some(i) && t@
                == self.tasks()[i],
    {
        proof {
            lemma_oldest_pending_found(self.tasks());
        }
        match self.find_oldest_pending() {
            Some(i) => {
                let t = self.tasks[i].duplicate();
                assert(self.tasks()[i as int] == t@);
                Some(t)
            },
            None => None,
        }
    }

    /// Takes the oldest waiting row, marks it as running and hands it out,
    /// in one step. With no row waiting nothing changes.
    pub fn claim_next_pending(&mut self) -> (r: Option<DownloadTaskInfo>)
        requires
            old(self).wf(),
        ensures
            final(self).wf(),
            r is Some <==> has_pending(old(self).tasks()),
            final(self).tasks() == claimed(old(self).tasks()),
            r matches Some(t) ==> oldest_pending(old(self).tasks()) matches Some(i) && t@
                == old(self).tasks()[i].with_only_status(DownloadStatus::Downloading),
            final(self).history() == old(self).history(),
            final(self).next_task_id() == old(self).next_task_id(),
            final(self).next_history_id() == old(self).next_history_id(),
    {
        proof {
            lemma_oldest_pending_found(self.tasks());
        }
        match self.find_oldest_pending() {
            Some(i) => {
                let mut row = self.tasks[i].duplicate();
                row.status = DownloadStatus::Downloading;
                let out = row.duplicate();
                assert(self.tasks()[i as int] == self.tasks@[i as int]@);
                self.replace(i, row);
                Some(out)
            },
            None => None,
        }
    }

    /// Marks every row that is marked as running as failed, with the text
    /// that tells of the restart, and gives the low 32 bits of their number.
    pub fn reset_stale_downloads(&mut self) -> (n: u32)
        requires
            old(self).wf(),
        ensures
            final(self).wf(),
            final(self).tasks() == fail_stale(old(self).tasks()),
            n == low32(downloading_count(old(self).tasks())),
            downloading_count(final(self).tasks()) == 0,
            final(self).history() == old(self).history(),
            final(self).next_task_id() == old(self).next_task_id(),
            final(self).next_history_id() == old(self).next_history_id(),
    {
        let ghost before = self.tasks();
        let ghost pred = |t: TaskView| t.status == DownloadStatus::Downloading;
        let mut count: usize = 0;
        let mut i: usize = 0;
        assert(before.take(0).filter(pred) =~= Seq::<TaskView>::empty()) by {
            reveal(Seq::filter);
        }
        while i < self.tasks.len()
            invariant
                self.wf(),
                i <= self.tasks@.len(),
                self.tasks().len() == self.tasks@.len(),
                before.len() == self.tasks@.len(),
                before == old(self).tasks(),
                pred == |t: TaskView| t.status == DownloadStatus::Downloading,
                forall|k: int| 0 <= k < i ==> self.tasks()[k] == fail_stale(before)[k],
                forall|k: int| i <= k < before.len() ==> self.tasks()[k] == before[k],
                count == before.take(i as int).filter(pred).len(),
                count <= i,
                self.history() == old(self).history(),
                self.next_task_id() == old(self).next_task_id(),
                self.next_history_id() == old(self).next_history_id(),
            decreases self.tasks@.len() - i,
        {
            proof {
                assert(before.take(i + 1) =~= before.take(i as int).push(before[i as int]));
                Seq::lemma_filter_push(before.take(i as int), before[i as int], pred);
                assert(self.tasks()[i as int] == self.tasks@[i as int]@);
            }
            if self.tasks[i].status == DownloadStatus::Downloading {
                let mut row = self.tasks[i].duplicate();
                row.status = DownloadStatus::Failed;
                row.error_message = Some(String::from_str("App closed during download"));
                self.replace(i, row);
                count += 1;
            }
            i += 1;
        }
        proof {
            assert(before.take(i as int) =~= before);
            assert(self.tasks() =~= fail_stale(before));
            lemma_none_downloading(before);
        }
        low32_of(count)
    }

    /// How many rows are marked as running. It fails when that number does
    /// not fit the result.
    pub fn get_active_count(&self) -> (r: Result<u32, AppError>)
        ensures
            r is Ok <==> downloading_count(self.tasks()) <= u32::MAX,
            match r {
                Ok(n) => n == downloading_count(self.tasks()),
                Err(e) => e matches AppError::DatabaseError(m) && m@ == count_message(),
            },
    {
        let ghost pred = |t: TaskView| t.status == DownloadStatus::Downloading;
        let mut count: usize = 0;
        let mut i: usize = 0;
        assert(self.tasks().take(0).filter(pred) =~= Seq::<TaskView>::empty()) by {
            reveal(Seq::filter);
        }
        while i < self.tasks.len()
            invariant
                i <= self.tasks@.len(),
                self.tasks().len() == self.tasks@.len(),
                pred == |t: TaskView| t.status == DownloadStatus::Downloading,
                count == self.tasks().take(i as int).filter(pred).len(),
                count <= i,
            decreases self.tasks@.len() - i,
        {
            proof {
                let t = self.tasks();
                assert(t.take(i + 1) =~= t.take(i as int).push(t[i as int]));
                Seq::lemma_filter_push(t.take(i as int), t[i as int], pred);
                assert(t[i as int] == self.tasks@[i as int]@);
            }
            if self.tasks[i].status == DownloadStatus::Downloading {
                count += 1;
            }
            i += 1;
        }
        assert(self.tasks().take(i as int) =~= self.tasks());
        if count <= 0xffff_ffff {
            Ok(count as u32)
        } else {
            Err(
                AppError::DatabaseError(
                    String::from_str("the number of running downloads is too large"),
                ),
            )
        }
    }

    /// The identifiers of the rows that are waiting or running, in table order.
    pub fn get_cancellable_ids(&self) -> (ids: Vec<u64>)
        ensures
            ids@ == task_ids(active_rows(self.tasks())),
    {
        let ghost pred = |t: TaskView| t.status.is_active();
        let mut ids: Vec<u64> = Vec::new();
        let mut i: usize = 0;
        assert(self.tasks().take(0).filter(pred) =~= Seq::<TaskView>::empty()) by {
            reveal(Seq::filter);
        }
        while i < self.tasks.len()
            invariant
                i <= self.tasks@.len(),
                self.tasks().len() == self.tasks@.len(),
                pred == |t: TaskView| t.status.is_active(),
                ids@ == task_ids(self.tasks().take(i as int).filter(pred)),
            decreases self.tasks@.len() - i,
        {
            proof {
                let t = self.tasks();
                assert(t.take(i + 1) =~= t.take(i as int).push(t[i as int]));
                Seq::lemma_filter_push(t.take(i as int), t[i as int], pred);
                assert(t[i as int] == self.tasks@[i as int]@);
            }
            if self.tasks[i].status.active() {
                ids.push(self.tasks[i].id);
                proof {
                    let t = self.tasks();
                    assert(ids@ =~= task_ids(t.take(i + 1).filter(pred)));
                }
            }
            i += 1;
        }
        assert(self.tasks().take(i as int) =~= self.tasks());
        ids
    }

    /// Removes every row that has ended and gives the low 32 bits of their
    /// number. The rows that are left keep their order.
    pub fn clear_completed(&mut self) -> (n: u32)
        requires
            old(self).wf(),
        ensures
            final(self).wf(),
            final(self).tasks() == without_ended(old(self).tasks()),
            n == low32((old(self).tasks().len() - final(self).tasks().len()) as nat),
            final(self).history() == old(self).history(),
            final(self).next_task_id() == old(self).next_task_id(),
            final(self).next_history_id() == old(self).next_history_id(),
    {
        let ghost before = self.tasks();
        let ghost pred = |t: TaskView| !t.status.is_terminal();
        let mut kept: Vec<DownloadTaskInfo> = Vec::new();
        let mut i: usize = 0;
        assert(before.take(0).filter(pred) =~= Seq::<TaskView>::empty()) by {
            reveal(Seq::filter);
        }
        while i < self.tasks.len()
            invariant
                i <= self.tasks@.len(),
                before == self.tasks(),
                before.len() == self.tasks@.len(),
                *self == *old(self),
                self.wf(),
                pred == |t: TaskView| !t.status.is_terminal(),
                task_views(kept@) == before.take(i as int).filter(pred),
                kept@.len() <= i,
                forall|k: int|
                    0 <= k < kept@.len() ==> exists|j: int|
                        0 <= j < i && #[trigger] task_views(kept@)[k] == before[j],
                forall|a: int, b: int|
                    0 <= a < b < kept@.len() ==> task_views(kept@)[a].id < task_views(kept@)[b].id,
            decreases self.tasks@.len() - i,
        {
            proof {
                assert(before.take(i + 1) =~= before.take(i as int).push(before[i as int]));
                Seq::lemma_filter_push(before.take(i as int), before[i as int], pred);
                assert(before[i as int] == self.tasks@[i as int]@);
            }
            if !self.tasks[i].status.terminal() {
                let row = self.tasks[i].duplicate();
                let ghost kept_before = task_views(kept@);
                kept.push(row);
                proof {
                    let now = task_views(kept@);
                    assert(now =~= kept_before.push(before[i as int]));
                    let ids = task_ids(before);
                    assert forall|a: int, b: int| 0 <= a < b < now.len() implies now[a].id
                        < now[b].id by {
                        if b == now.len() - 1 {
                            let j = choose|j: int| 0 <= j < i && kept_before[a] == before[j];
                            assert(ids[j] == before[j].id);
                            assert(ids[i as int] == before[i as int].id);
                        } else {
                            assert(now[a] == kept_before[a]);
                            assert(now[b] == kept_before[b]);
                        }
                    }
                    assert forall|k: int| 0 <= k < now.len() implies exists|j: int|
                        0 <= j < i + 1 && #[trigger] now[k] == before[j] by {
                        if k == now.len() - 1 {
                            assert(now[k] == before[i as int]);
                        } else {
                            assert(now[k] == kept_before[k]);
                            let j = choose|j: int| 0 <= j < i && kept_before[k] == before[j];
                            assert(now[k] == before[j]);
                        }
                    }
                }
            }
            i += 1;
        }
        let removed: usize = self.tasks.len() - kept.len();
        proof {
            assert(before.take(i as int) =~= before);
            let now = task_views(kept@);
            let ids = task_ids(now);
            let old_ids = task_ids(before);
            assert forall|k: int| 0 <= k < ids.len() implies 1 <= #[trigger] ids[k]
                < self.next_task_id() by {
                let j = choose|j: int| 0 <= j < i && now[k] == before[j];
                assert(old_ids[j] == before[j].id);
            }
            assert forall|a: int, b: int| 0 <= a < b < ids.len() implies ids[a] < ids[b] by {
                assert(now[a].id < now[b].id);
            }
        }
        self.tasks = kept;
        low32_of(removed)
    }

    /// Adds `item` to the history under a fresh identifier, which it gives
    /// back. It fails, and changes nothing, only when the identifiers have
    /// run out. It is for the completion that marks the row in the same
    /// step, and for no other use: a record comes only with a completion.
    fn insert_history(&mut self, item: &HistoryItem) -> (r: Result<u64, AppError>)
        requires
            old(self).wf(),
        ensures
            final(self).wf(),
            final(self).tasks() == old(self).tasks(),
            final(self).next_task_id() == old(self).next_task_id(),
            r is Ok <==> old(self).next_history_id() <= MAX_ROW_ID,
            match r {
                Ok(id) => {
                    &&& id == old(self).next_history_id()
                    &&& final(self).next_history_id() == id + 1
                    &&& final(self).history() == old(self).history().push(item@.with_id(id))
                },
                Err(e) => {
                    &&& e matches AppError::DatabaseError(m)
                    &&& m@ == full_message()
                    &&& final(self).history() == old(self).history()
                    &&& final(self).next_history_id() == old(self).next_history_id()
                },
            },
    {
        if self.next_history_id > MAX_ROW_ID {
            return Err(full_error());
        }
        let id = self.next_history_id;
        let mut record = item.duplicate();
        record.id = id;
        self.history.push(record);
        self.next_history_id = id + 1;
        proof {
            assert(self.history() =~= old(self).history().push(item@.with_id(id)));
            let ids = history_ids(self.history());
            let before = history_ids(old(self).history());
            assert forall|i: int| 0 <= i < ids.len() implies 1 <= #[trigger] ids[i]
                < self.next_history_id() by {
                if i < before.len() {
                    assert(ids[i] == before[i]);
                }
            }
            assert forall|i: int, j: int| 0 <= i < j < ids.len() implies ids[i] < ids[j] by {
                assert(ids[i] == before[i]);
                if j < before.len() {
                    assert(ids[j] == before[j]);
                }
            }
        }
        Ok(id)
    }

    /// Whether row `id` is there and marked as running.
    fn running(&self, id: u64) -> (b: bool)
        requires
            self.wf(),
        ensures
            b == is_running(self.tasks(), id),
    {
        proof {
            lemma_ids_distinct(self.tasks(), self.next_task_id());
        }
        match self.find(id) {
            Some(i) => {
                assert(self.tasks()[i as int] == self.tasks@[i as int]@);
                self.tasks[i].status == DownloadStatus::Downloading
            },
            None => false,
        }
    }

    /// Completes row `id` at `completed_at` and adds `history` to the
    /// history, both or neither. Only a row that is marked as running is
    /// completed: a row in any other state, or no row, is left as it is,
    /// and nothing is recorded for it. It fails, and changes nothing, only
    /// when a running row cannot be recorded because the identifiers of
    /// the history have run out.
    pub fn complete_and_record(&mut self, id: u64, completed_at: i64, history: &HistoryItem) -> (r:
        Result<(), AppError>)
        requires
            old(self).wf(),
        ensures
            final(self).wf(),
            final(self).next_task_id() == old(self).next_task_id(),
            r is Ok <==> !is_running(old(self).tasks(), id) || old(self).next_history_id()
                <= MAX_ROW_ID,
            r is Ok && is_running(old(self).tasks(), id) ==> {
                &&& final(self).tasks() == set_completed(old(self).tasks(), id, completed_at)
                &&& final(self).history() == old(self).history().push(
                    history@.with_id(old(self).next_history_id()),
                )
                &&& final(self).next_history_id() == old(self).next_history_id() + 1
            },
            !(r is Ok && is_running(old(self).tasks(), id)) ==> {
                &&& final(self).tasks() == old(self).tasks()
                &&& final(self).history() == old(self).history()
                &&& final(self).next_history_id() == old(self).next_history_id()
            },
            r matches Err(e) ==> e matches AppError::DatabaseError(m) && m@ == full_message(),
    {
        if !self.running(id) {
            return Ok(());
        }
        match self.insert_history(history) {
            Ok(_) => {
                self.mark_completed(id, completed_at);
                Ok(())
            },
            Err(e) => Err(e),
        }
    }

    /// Adds a waiting row for each item, all created now by the machine's
    /// clock, and gives their identifiers in the order of the items. Where
    /// the identifiers do not suffice for all of them, none is added.
    pub fn insert_downloads_batch(&mut self, items: &[(DownloadRequest, String)]) -> (r: Result<
        Vec<u64>,
        AppError,
    >)
        requires
            old(self).wf(),
        ensures
            final(self).wf(),
            final(self).history() == old(self).history(),
            final(self).next_history_id() == old(self).next_history_id(),
            r is Ok <==> items@.len() == 0 || old(self).next_task_id() + items@.len() - 1
                <= MAX_ROW_ID,
            match r {
                Ok(ids) => {
                    &&& ids@.len() == items@.len()
                    &&& forall|k: int|
                        0 <= k < ids@.len() ==> ids@[k] == old(self).next_task_id() + k
                    &&& final(self).next_task_id() == old(self).next_task_id() + items@.len()
                    &&& exists|created_at: i64|
                        final(self).tasks() == old(self).tasks() + #[trigger] batch_rows(
                            old(self).next_task_id(),
                            items@,
                            created_at,
                        )
                },
                Err(e) => {
                    &&& e matches AppError::DatabaseError(m)
                    &&& m@ == full_message()
                    &&& final(self).tasks() == old(self).tasks()
                    &&& final(self).next_task_id() == old(self).next_task_id()
                },
            },
    {
        let created_at = unix_now();
        self.insert_downloads_batch_at(items, created_at)
    }

    /// Adds a waiting row for each item, all created at `created_at`, and
    /// gives their identifiers in the order of the items. Where the
    /// identifiers do not suffice for all of them, none is added.
    pub fn insert_downloads_batch_at(
        &mut self,
        items: &[(DownloadRequest, String)],
        created_at: i64,
    ) -> (r: Result<Vec<u64>, AppError>)
        requires
            old(self).wf(),
        ensures
            final(self).wf(),
            final(self).history() == old(self).history(),
            final(self).next_history_id() == old(self).next_history_id(),
            r is Ok <==> items@.len() == 0 || old(self).next_task_id() + items@.len() - 1
                <= MAX_ROW_ID,
            match r {
                Ok(ids) => {
                    &&& ids@.len() == items@.len()
                    &&& forall|k: int|
                        0 <= k < ids@.len() ==> ids@[k] == old(self).next_task_id() + k
                    &&& final(self).next_task_id() == old(self).next_task_id() + items@.len()
                    &&& final(self).tasks() == old(self).tasks() + batch_rows(
                        old(self).next_task_id(),
                        items@,
                        created_at,
                    )
                },
                Err(e) => {
                    &&& e matches AppError::DatabaseError(m)
                    &&& m@ == full_message()
                    &&& final(self).tasks() == old(self).tasks()
                    &&& final(self).next_task_id() == old(self).next_task_id()
                },
            },
    {
        let first = self.next_task_id;
        if items.len() == 0 {
            assert(self.tasks() =~= old(self).tasks() + batch_rows(first, items@, created_at));
            return Ok(Vec::new());
        }
        if first > MAX_ROW_ID || (items.len() - 1) as u64 > MAX_ROW_ID - first {
            return Err(full_error());
        }
        let mut ids: Vec<u64> = Vec::new();
        let mut k: usize = 0;
        while k < items.len()
            invariant
                k <= items@.len(),
                self.wf(),
                first == old(self).next_task_id(),
                first + items@.len() - 1 <= MAX_ROW_ID,
                self.next_task_id() == first + k,
                ids@.len() == k,
                forall|j: int| 0 <= j < k ==> ids@[j] == first + j,
                self.tasks() == old(self).tasks() + batch_rows(first, items@, created_at).take(
                    k as int,
                ),
                self.history() == old(self).history(),
                self.next_history_id() == old(self).next_history_id(),
            decreases items@.len() - k,
        {
            let r = self.insert_download_at(&items[k].0, items[k].1.as_str(), created_at);
            match r {
                Ok(id) => {
                    ids.push(id);
                },
                Err(e) => {
                    return Err(e);
                },
            }
            proof {
                let all = batch_rows(first, items@, created_at);
                assert(all.take(k + 1) =~= all.take(k as int).push(all[k as int]));
                assert(self.tasks() =~= old(self).tasks() + all.take(k + 1));
            }
            k += 1;
        }
        proof {
            let all = batch_rows(first, items@, created_at);
            assert(all.take(k as int) =~= all);
        }
        Ok(ids)
    }

    /// Whether a waiting or running row is for the item `video_id`.
    pub fn check_duplicate_in_queue(&self, video_id: &str) -> (found: bool)
        ensures
            found == queued(self.tasks(), video_id@),
    {
        let mut i: usize = 0;
        while i < self.tasks.len()
            invariant
                i <= self.tasks@.len(),
                self.tasks().len() == self.tasks@.len(),
                forall|k: int|
                    0 <= k < i ==> !(self.tasks()[k].video_id == video_id@
                        && self.tasks()[k].status.is_active()),
            decreases self.tasks@.len() - i,
        {
            assert(self.tasks()[i as int] == self.tasks@[i as int]@);
            if self.tasks[i].status.active() && same_text(
                self.tasks[i].video_id.as_str(),
                video_id,
            ) {
                return true;
            }
            i += 1;
        }
        false
    }

    /// The latest record of the history for the item `video_id`, if there is one.
    pub fn check_duplicate(&self, video_id: &str) -> (r: Option<HistoryItem>)
        ensures
            r is Some <==> recorded(self.history(), video_id@),
            r matches Some(h) ==> exists|i: int|
                is_latest_record(self.history(), video_id@, i) && h@ == self.history()[i],
    {
        let mut best: Option<usize> = None;
        let mut i: usize = 0;
        while i < self.history.len()
            invariant
                i <= self.history@.len(),
                self.history().len() == self.history@.len(),
                forall|k: int|
                    0 <= k < self.history@.len() ==> self.history()[k] == self.history@[k]@,
                match best {
                    Some(b) => {
                        &&& b < i
                        &&& self.history()[b as int].video_id == video_id@
                        &&& forall|j: int|
                            0 <= j < i && self.history()[j].video_id == video_id@
                                ==> self.history()[j].downloaded_at
                                < self.history()[b as int].downloaded_at || (
                            self.history()[j].downloaded_at
                                == self.history()[b as int].downloaded_at && j <= b)
                    },
                    None => forall|k: int| 0 <= k < i ==> self.history()[k].video_id != video_id@,
                },
            decreases self.history@.len() - i,
        {
            if same_text(self.history[i].video_id.as_str(), video_id) {
                match best {
                    Some(b) => {
                        if self.history[i].downloaded_at >= self.history[b].downloaded_at {
                            best = Some(i);
                        }
                    },
                    None => {
                        best = Some(i);
                    },
                }
            }
            i += 1;
        }
        match best {
            Some(b) => {
                let h = self.history[b].duplicate();
                assert(is_latest_record(self.history(), video_id@, b as int));
                Some(h)
            },
            None => None,
        }
    }

    /// Removes the record `id` from the history. Without such a record
    /// nothing changes.
    pub fn delete_history(&mut self, id: u64)
        requires
            old(self).wf(),
        ensures
            final(self).wf(),
            final(self).history() == without_record(old(self).history(), id),
            final(self).tasks() == old(self).tasks(),
            final(self).next_task_id() == old(self).next_task_id(),
            final(self).next_history_id() == old(self).next_history_id(),
    {
        let ghost before = self.history();
        let ghost pred = |h: HistoryView| h.id != id;
        let mut kept: Vec<HistoryItem> = Vec::new();
        let mut i: usize = 0;
        assert(before.take(0).filter(pred) =~= Seq::<HistoryView>::empty()) by {
            reveal(Seq::filter);
        }
        while i < self.history.len()
            invariant
                i <= self.history@.len(),
                before == self.history(),
                before.len() == self.history@.len(),
                *self == *old(self),
                self.wf(),
                pred == |h: HistoryView| h.id != id,
                history_views(kept@) == before.take(i as int).filter(pred),
                forall|k: int|
                    0 <= k < kept@.len() ==> exists|j: int|
                        0 <= j < i && #[trigger] history_views(kept@)[k] == before[j],
                forall|a: int, b: int|
                    0 <= a < b < kept@.len() ==> history_views(kept@)[a].id < history_views(
                        kept@,
                    )[b].id,
            decreases self.history@.len() - i,
        {
            proof {
                assert(before.take(i + 1) =~= before.take(i as int).push(before[i as int]));
                Seq::lemma_filter_push(before.take(i as int), before[i as int], pred);
                assert(before[i as int] == self.history@[i as int]@);
            }
            if self.history[i].id != id {
                let row = self.history[i].duplicate();
                let ghost kept_before = history_views(kept@);
                kept.push(row);
                proof {
                    let now = history_views(kept@);
                    assert(now =~= kept_before.push(before[i as int]));
                    let ids = history_ids(before);
                    assert forall|a: int, b: int| 0 <= a < b < now.len() implies now[a].id
                        < now[b].id by {
                        if b == now.len() - 1 {
                            let j = choose|j: int| 0 <= j < i && kept_before[a] == before[j];
                            assert(ids[j] == before[j].id);
                            assert(ids[i as int] == before[i as int].id);
                        } else {
                            assert(now[a] == kept_before[a]);
                            assert(now[b] == kept_before[b]);
                        }
                    }
                    assert forall|k: int| 0 <= k < now.len() implies exists|j: int|
                        0 <= j < i + 1 && #[trigger] now[k] == before[j] by {
                        if k == now.len() - 1 {
                            assert(now[k] == before[i as int]);
                        } else {
                            assert(now[k] == kept_before[k]);
                            let j = choose|j: int| 0 <= j < i && kept_before[k] == before[j];
                            assert(now[k] == before[j]);
                        }
                    }
                }
            }
            i += 1;
        }
        proof {
            assert(before.take(i as int) =~= before);
            let now = history_views(kept@);
            let ids = history_ids(now);
            let old_ids = history_ids(before);
            assert forall|k: int| 0 <= k < ids.len() implies 1 <= #[trigger] ids[k]
                < self.next_history_id() by {
                let j = choose|j: int| 0 <= j < i && now[k] == before[j];
                assert(old_ids[j] == before[j].id);
            }
            assert forall|a: int, b: int| 0 <= a < b < ids.len() implies ids[a] < ids[b] by {
                assert(now[a].id < now[b].id);
            }
        }
        self.history = kept;
    }
}

/// Says whether the item `video_id` was downloaded before and whether it
/// is queued now, and hands out the latest record of it, if there is one.
pub fn check_duplicate(db: &Database, video_id: &str) -> (r: DuplicateCheckResult)
    ensures
        r.in_history == recorded(db.history(), video_id@),
        r.in_queue == queued(db.tasks(), video_id@),
        r.history_item is Some == r.in_history,
        r.history_item matches Some(h) ==> exists|i: int|
            is_latest_record(db.history(), video_id@, i) && h@ == db.history()[i],
{
    let history_item = db.check_duplicate(video_id);
    let in_queue = db.check_duplicate_in_queue(video_id);
    DuplicateCheckResult { in_history: history_item.is_some(), in_queue, history_item }
}

/// Once the rows marked as running were marked as failed, none is marked as running.
pub proof fn lemma_none_downloading(tasks: Seq<TaskView>)
    ensures
        downloading_count(fail_stale(tasks)) == 0,
{
    let pred = |t: TaskView| t.status == DownloadStatus::Downloading;
    let after = fail_stale(tasks);
    let f = after.filter(pred);
    if f.len() > 0 {
        Seq::lemma_filter_pred(after, pred, 0);
        assert(f.contains(f[0]));
        Seq::lemma_filter_contains_rev(after, pred, f[0]);
        let k = choose|k: int| 0 <= k < after.len() && after[k] == f[0];
        assert(after[k].status != DownloadStatus::Downloading);
    }
}

/// Row `t` is a row of `tasks` that `pred` selects.
pub open spec fn selected_from(
    tasks: Seq<TaskView>,
    pred: spec_fn(TaskView) -> bool,
    t: TaskView,
) -> bool {
    exists|j: int| 0 <= j < tasks.len() && pred(tasks[j]) && #[trigger] tasks[j] == t
}

/// A selection of the rows of a table keeps their order: every row of it
/// is a row of the table, and the identifiers still grow along it.
pub proof fn lemma_filter_keeps_order(tasks: Seq<TaskView>, pred: spec_fn(TaskView) -> bool)
    requires
        forall|i: int, j: int| 0 <= i < j < tasks.len() ==> tasks[i].id < tasks[j].id,
    ensures
        forall|a: int, b: int|
            0 <= a < b < tasks.filter(pred).len() ==> tasks.filter(pred)[a].id < tasks.filter(
                pred,
            )[b].id,
        forall|a: int|
            0 <= a < tasks.filter(pred).len() ==> selected_from(
                tasks,
                pred,
                #[trigger] tasks.filter(pred)[a],
            ),
    decreases tasks.len(),
{
    reveal(Seq::filter);
    if tasks.len() > 0 {
        let rest = tasks.drop_last();
        let last = tasks.last();
        lemma_filter_keeps_order(rest, pred);
        let fr = rest.filter(pred);
        let f = tasks.filter(pred);
        assert forall|a: int| 0 <= a < f.len() implies selected_from(
            tasks,
            pred,
            #[trigger] f[a],
        ) by {
            if a < fr.len() {
                assert(selected_from(rest, pred, fr[a]));
                let j = choose|j: int|
                    0 <= j < rest.len() && pred(rest[j]) && #[trigger] rest[j] == fr[a];
                assert(tasks[j] == f[a]);
            } else {
                assert(tasks[tasks.len() - 1] == f[a]);
            }
        }
        assert forall|a: int, b: int| 0 <= a < b < f.len() implies f[a].id < f[b].id by {
            if b < fr.len() {
                assert(fr[a].id < fr[b].id);
            } else {
                assert(selected_from(rest, pred, fr[a]));
                let j = choose|j: int|
                    0 <= j < rest.len() && pred(rest[j]) && #[trigger] rest[j] == fr[a];
                assert(tasks[j].id < tasks[tasks.len() - 1].id);
            }
        }
    }
}

/// A selection of the records of a history keeps their order: the
/// identifiers still grow along it.
pub proof fn lemma_history_filter_keeps_order(
    history: Seq<HistoryView>,
    pred: spec_fn(HistoryView) -> bool,
)
    requires
        exists|next_id: u64| ids_ok(history_ids(history), next_id),
    ensures
        forall|a: int, b: int|
            0 <= a < b < history.filter(pred).len() ==> history.filter(pred)[a].id
                < history.filter(pred)[b].id,
    decreases history.len(),
{
    reveal(Seq::filter);
    let next_id = choose|next_id: u64| ids_ok(history_ids(history), next_id);
    if history.len() > 0 {
        let rest = history.drop_last();
        let ids = history_ids(history);
        let rest_ids = history_ids(rest);
        assert(ids_ok(rest_ids, next_id)) by {
            assert forall|i: int| 0 <= i < rest_ids.len() implies 1 <= #[trigger] rest_ids[i]
                < next_id by {
                assert(rest_ids[i] == ids[i]);
            }
            assert forall|i: int, j: int| 0 <= i < j < rest_ids.len() implies rest_ids[i]
                < rest_ids[j] by {
                assert(rest_ids[i] == ids[i]);
                assert(rest_ids[j] == ids[j]);
            }
        }
        lemma_history_filter_keeps_order(rest, pred);
        let fr = rest.filter(pred);
        let f = history.filter(pred);
        assert forall|a: int, b: int| 0 <= a < b < f.len() implies f[a].id < f[b].id by {
            if b < fr.len() {
                assert(fr[a].id < fr[b].id);
            } else {
                assert(fr.contains(fr[a]));
                Seq::lemma_filter_contains_rev(rest, pred, fr[a]);
                let j = choose|j: int| 0 <= j < rest.len() && rest[j] == fr[a];
                assert(ids[j] == history[j].id);
                assert(ids[history.len() - 1] == history[history.len() - 1].id);
            }
        }
    }
}

/// In a well-formed table the identifiers grow along the rows.
pub proof fn lemma_ids_grow(tasks: Seq<TaskView>, next_id: u64)
    requires
        ids_ok(task_ids(tasks), next_id),
    ensures
        forall|i: int, j: int| 0 <= i < j < tasks.len() ==> tasks[i].id < tasks[j].id,
{
    let ids = task_ids(tasks);
    assert forall|i: int, j: int| 0 <= i < j < tasks.len() implies tasks[i].id < tasks[j].id by {
        assert(ids[i] == tasks[i].id);
        assert(ids[j] == tasks[j].id);
    }
}

/// In a well-formed table no two rows share an identifier.
pub proof fn lemma_ids_distinct(tasks: Seq<TaskView>, next_id: u64)
    requires
        ids_ok(task_ids(tasks), next_id),
    ensures
        forall|i: int, j: int|
            0 <= i < tasks.len() && 0 <= j < tasks.len() && tasks[i].id == tasks[j].id ==> i == j,
{
    let ids = task_ids(tasks);
    assert forall|i: int, j: int|
        0 <= i < tasks.len() && 0 <= j < tasks.len() && tasks[i].id == tasks[j].id implies i
        == j by {
        assert(ids[i] == tasks[i].id);
        assert(ids[j] == tasks[j].id);
        if i < j {
            assert(ids[i] < ids[j]);
        }
        if j < i {
            assert(ids[j] < ids[i]);
        }
    }
}

/// A table that differs from `tasks` in row `at` alone is `tasks` with that
/// row replaced.
proof fn lemma_single_row_change(tasks: Seq<TaskView>, at: int, changed: Seq<TaskView>)
    requires
        0 <= at < tasks.len(),
        changed.len() == tasks.len(),
        exists|next_id: u64| ids_ok(task_ids(tasks), next_id),
        forall|k: int|
            0 <= k < tasks.len() && tasks[k].id != tasks[at].id ==> changed[k] == tasks[k],
    ensures
        changed == tasks.update(at, changed[at]),
{
    let next_id = choose|next_id: u64| ids_ok(task_ids(tasks), next_id);
    lemma_ids_distinct(tasks, next_id);
    assert(changed =~= tasks.update(at, changed[at]));
}

} // verus!
