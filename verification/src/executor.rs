//! One download run, step by step: what the worker is called with, what
//! is stored and announced as the run goes on, and how it ends. The caller
//! starts and watches the process and hands in what it saw.

use crate::clock::unix_now;
use crate::db::Database;
use crate::db::MAX_ROW_ID;
use crate::db::full_message;
use crate::db::is_running;
use crate::db::succeeded;
use crate::db::set_progress;
use crate::db::set_status;
use crate::manager::DownloadManager;
use crate::manager::released;
use crate::output::STDERR_BUFFER_LIMIT_BYTES;
use crate::output::announced_path;
use crate::output::append_limited;
use crate::output::joined;
use crate::output::kept_tail;
use crate::output::parse_destination_line;
use crate::progress::parse_progress_line;
use crate::progress::parsed_progress;
use crate::progress::progress_template;
use crate::progress::report_due;
use crate::progress::should_report;
use crate::progress::shown;
use crate::progress::shown_field;
use crate::progress::template_text;
use crate::scheduler::dispatched_ids;
use crate::scheduler::dispatched_rows;
use crate::scheduler::free_slots;
use crate::scheduler::process_next_pending;
use crate::status::DownloadStatus;
use crate::text::drop_space_back;
use crate::text::text_of;
use crate::text::texts;
use crate::text::to_chars;
use crate::text::trim_end_index;
use crate::types::DownloadTaskInfo;
use crate::types::HistoryItem;
use crate::types::HistoryView;
use crate::types::PERCENT_COMPLETE;
use crate::types::ProgressInfo;
use crate::types::TaskView;
use crate::types::opt_text;
use tokio::sync::watch::Receiver;
use vstd::prelude::*;
use vstd::utf8::encode_utf8;

verus! {

/// What is announced when a task changes.
#[derive(Clone, Debug, PartialEq, Eq)]
pub struct GlobalDownloadEvent {
    pub task_id: u64,
    pub event_type: String,
    /// In thousandths of a percent.
    pub percent: Option<u64>,
    pub speed: Option<String>,
    pub eta: Option<String>,
    pub file_path: Option<String>,
    pub file_size: Option<u64>,
    pub message: Option<String>,
}

/// What an announcement holds.
pub struct EventView {
    pub task_id: u64,
    pub event_type: Seq<char>,
    pub percent: Option<u64>,
    pub speed: Option<Seq<char>>,
    pub eta: Option<Seq<char>>,
    pub file_path: Option<Seq<char>>,
    pub file_size: Option<u64>,
    pub message: Option<Seq<char>>,
}

impl View for GlobalDownloadEvent {
    type V = EventView;

    open spec fn view(&self) -> EventView {
        EventView {
            task_id: self.task_id,
            event_type: self.event_type@,
            percent: self.percent,
            speed: opt_text(self.speed),
            eta: opt_text(self.eta),
            file_path: opt_text(self.file_path),
            file_size: self.file_size,
            message: opt_text(self.message),
        }
    }
}

/// An announcement of the kind `event_type` that says nothing else.
pub open spec fn bare_event(task_id: u64, event_type: Seq<char>) -> EventView {
    EventView {
        task_id: task_id,
        event_type: event_type,
        percent: None,
        speed: None,
        eta: None,
        file_path: None,
        file_size: None,
        message: None,
    }
}

/// The announcement that a run has started.
pub open spec fn started_view(task_id: u64) -> EventView {
    bare_event(task_id, "started"@)
}

/// The announcement of a progress report.
pub open spec fn progress_view(
    task_id: u64,
    percent: u64,
    speed: Option<Seq<char>>,
    eta: Option<Seq<char>>,
) -> EventView {
    EventView {
        percent: Some(percent),
        speed: Some(shown_field(speed)),
        eta: Some(shown_field(eta)),
        ..bare_event(task_id, "progress"@)
    }
}

/// The announcement that a download is complete.
pub open spec fn completed_view(task_id: u64, file_path: Seq<char>, file_size: u64) -> EventView {
    EventView {
        percent: Some(PERCENT_COMPLETE),
        file_path: Some(file_path),
        file_size: Some(file_size),
        ..bare_event(task_id, "completed"@)
    }
}

/// The announcement that a run has failed.
pub open spec fn error_view(task_id: u64, message: Seq<char>) -> EventView {
    EventView { message: Some(message), ..bare_event(task_id, "error"@) }
}

/// The words that go with the announcement of a cancelled download.
pub open spec fn cancelled_words() -> Seq<char> {
    "다운로드가 취소되었습니다."@
}

/// The announcement that a download was cancelled.
pub open spec fn cancelled_view(task_id: u64) -> EventView {
    EventView { message: Some(cancelled_words()), ..bare_event(task_id, "cancelled"@) }
}

fn bare(task_id: u64, event_type: &str) -> (e: GlobalDownloadEvent)
    ensures
        e@ == bare_event(task_id, event_type@),
{
    GlobalDownloadEvent {
        task_id,
        event_type: event_type.to_owned(),
        percent: None,
        speed: None,
        eta: None,
        file_path: None,
        file_size: None,
        message: None,
    }
}

/// The announcement that the run of `task_id` has started.
pub fn started_event(task_id: u64) -> (e: GlobalDownloadEvent)
    ensures
        e@ == started_view(task_id),
{
    bare(task_id, "started")
}

/// The announcement that the run of `task_id` has failed with `message`.
pub fn error_event(task_id: u64, message: &str) -> (e: GlobalDownloadEvent)
    ensures
        e@ == error_view(task_id, message@),
{
    let mut e = bare(task_id, "error");
    e.message = Some(message.to_owned());
    e
}

/// The announcement that the download `task_id` was cancelled.
pub fn cancelled_event(task_id: u64) -> (e: GlobalDownloadEvent)
    ensures
        e@ == cancelled_view(task_id),
{
    let mut e = bare(task_id, "cancelled");
    e.message = Some("다운로드가 취소되었습니다.".to_owned());
    e
}

/// The announcement that the download `task_id` is complete.
pub fn completed_event(task_id: u64, file_path: &str, file_size: u64) -> (e: GlobalDownloadEvent)
    ensures
        e@ == completed_view(task_id, file_path@, file_size),
{
    let mut e = bare(task_id, "completed");
    e.percent = Some(PERCENT_COMPLETE);
    e.file_path = Some(file_path.to_owned());
    e.file_size = Some(file_size);
    e
}

/// The announcement of the progress report `info` of the run of `task_id`.
pub fn progress_event(task_id: u64, info: &ProgressInfo) -> (e: GlobalDownloadEvent)
    ensures
        e@ == progress_view(task_id, info.percent, opt_text(info.speed), opt_text(info.eta)),
{
    let mut e = bare(task_id, "progress");
    e.percent = Some(info.percent);
    e.speed = Some(shown(&info.speed));
    e.eta = Some(shown(&info.eta));
    e
}

/// One text as a list, or no text.
pub open spec fn flag_with(flag: Seq<char>, value: Option<Seq<char>>) -> Seq<Seq<char>> {
    match value {
        Some(v) => seq![flag, v],
        None => Seq::empty(),
    }
}

/// What the worker is called with for `task`: the format, the file to
/// write, the template of the progress reports, one line per report, no
/// playlist, no overwriting, UTF-8; then, where asked for, file names fit
/// for Windows, the place of the helper tool and the browser to take
/// cookies from; and the address last.
pub open spec fn worker_args(
    task: TaskView,
    ffmpeg_location: Option<Seq<char>>,
    cookie_browser: Option<Seq<char>>,
    windows_filenames: bool,
) -> Seq<Seq<char>> {
    seq![
        "--format"@,
        task.format_id,
        "--output"@,
        task.output_path,
        "--progress-template"@,
        template_text(),
        "--newline"@,
        "--no-playlist"@,
        "--no-overwrites"@,
        "--encoding"@,
        "UTF-8"@,
    ] + (if windows_filenames {
        seq!["--windows-filenames"@]
    } else {
        Seq::empty()
    }) + flag_with("--ffmpeg-location"@, ffmpeg_location) + flag_with(
        "--cookies-from-browser"@,
        cookie_browser,
    ) + seq![task.video_url]
}

fn push_text(args: &mut Vec<String>, t: &str)
    ensures
        texts(final(args)@) == texts(old(args)@).push(t@),
{
    args.push(t.to_owned());
    assert(texts(args@) =~= texts(old(args)@).push(t@));
}

/// The arguments for the worker; see `worker_args`.
pub fn build_args(
    task: &DownloadTaskInfo,
    ffmpeg_location: Option<&str>,
    cookie_browser: Option<&str>,
    windows_filenames: bool,
) -> (args: Vec<String>)
    ensures
        texts(args@) == worker_args(
            task@,
            match ffmpeg_location {
                Some(p) => Some(p@),
                None => None,
            },
            match cookie_browser {
                Some(b) => Some(b@),
                None => None,
            },
            windows_filenames,
        ),
{
    let mut args: Vec<String> = Vec::new();
    assert(texts(args@) =~= Seq::<Seq<char>>::empty());
    push_text(&mut args, "--format");
    push_text(&mut args, task.format_id.as_str());
    push_text(&mut args, "--output");
    push_text(&mut args, task.output_path.as_str());
    push_text(&mut args, "--progress-template");
    let template = progress_template();
    push_text(&mut args, template.as_str());
    push_text(&mut args, "--newline");
    push_text(&mut args, "--no-playlist");
    push_text(&mut args, "--no-overwrites");
    push_text(&mut args, "--encoding");
    push_text(&mut args, "UTF-8");
    let ghost head = texts(args@);
    assert(head =~= seq![
        "--format"@,
        task@.format_id,
        "--output"@,
        task@.output_path,
        "--progress-template"@,
        template_text(),
        "--newline"@,
        "--no-playlist"@,
        "--no-overwrites"@,
        "--encoding"@,
        "UTF-8"@,
    ]);
    if windows_filenames {
        push_text(&mut args, "--windows-filenames");
    }
    let ghost with_win = texts(args@);
    assert(with_win =~= head + (if windows_filenames {
        seq!["--windows-filenames"@]
    } else {
        Seq::empty()
    }));
    match ffmpeg_location {
        Some(p) => {
            push_text(&mut args, "--ffmpeg-location");
            push_text(&mut args, p);
        },
        None => {},
    }
    let ghost with_tool = texts(args@);
    assert(with_tool =~= with_win + flag_with(
        "--ffmpeg-location"@,
        match ffmpeg_location {
            Some(p) => Some(p@),
            None => None,
        },
    ));
    match cookie_browser {
        Some(b) => {
            push_text(&mut args, "--cookies-from-browser");
            push_text(&mut args, b);
        },
        None => {},
    }
    let ghost with_cookies = texts(args@);
    assert(with_cookies =~= with_tool + flag_with(
        "--cookies-from-browser"@,
        match cookie_browser {
            Some(b) => Some(b@),
            None => None,
        },
    ));
    push_text(&mut args, task.video_url.as_str());
    assert(texts(args@) =~= with_cookies + seq![task@.video_url]);
    args
}

/// Remembers the last progress report that was passed on.
pub struct ProgressThrottle {
    last_percent: Option<u64>,
    last_update_ms: u64,
}

impl ProgressThrottle {
    /// The percentage of the last report passed on, if there was one.
    pub closed spec fn last(&self) -> Option<u64> {
        self.last_percent
    }

    /// When the last report was passed on, in milliseconds.
    pub closed spec fn since(&self) -> u64 {
        self.last_update_ms
    }

    /// A throttle that has passed on nothing yet.
    pub fn new() -> (t: Self)
        ensures
            t.last() is None,
    {
        ProgressThrottle { last_percent: None, last_update_ms: 0 }
    }
}

/// The time between `since` and `now`, none if the clock went back.
pub open spec fn elapsed(since: u64, now: u64) -> u64 {
    if now >= since {
        (now - since) as u64
    } else {
        0
    }
}

/// Takes in the progress report `info` of the run of `task_id`, read at
/// `now_ms`. Where a report is due it is stored on the task's row and the
/// announcement is given back; else nothing changes.
pub fn report_progress(
    db: &mut Database,
    throttle: &mut ProgressThrottle,
    task_id: u64,
    info: &ProgressInfo,
    now_ms: u64,
) -> (r: Option<GlobalDownloadEvent>)
    requires
        old(db).wf(),
    ensures
        final(db).wf(),
        r is Some <==> report_due(
            old(throttle).last(),
            info.percent,
            elapsed(old(throttle).since(), now_ms),
        ),
        match r {
            Some(e) => {
                &&& e@ == progress_view(
                    task_id,
                    info.percent,
                    opt_text(info.speed),
                    opt_text(info.eta),
                )
                &&& final(db).tasks() == set_progress(
                    old(db).tasks(),
                    task_id,
                    info.percent,
                    Some(shown_field(opt_text(info.speed))),
                    Some(shown_field(opt_text(info.eta))),
                )
                &&& final(throttle).last() == Some(info.percent)
                &&& final(throttle).since() == now_ms
            },
            None => {
                &&& final(db).tasks() == old(db).tasks()
                &&& final(throttle).last() == old(throttle).last()
                &&& final(throttle).since() == old(throttle).since()
            },
        },
        final(db).history() == old(db).history(),
        final(db).next_task_id() == old(db).next_task_id(),
        final(db).next_history_id() == old(db).next_history_id(),
{
    let gone: u64 = if now_ms >= throttle.last_update_ms {
        now_ms - throttle.last_update_ms
    } else {
        0
    };
    if !should_report(throttle.last_percent, info.percent, gone) {
        return None;
    }
    let speed = shown(&info.speed);
    let eta = shown(&info.eta);
    db.update_download_progress(task_id, info.percent, Some(speed.as_str()), Some(eta.as_str()));
    throttle.last_percent = Some(info.percent);
    throttle.last_update_ms = now_ms;
    Some(progress_event(task_id, info))
}

/// What is known from the worker's output while its process runs: the
/// file that it announced last, and the last progress report passed on.
pub struct OutputWatch {
    announced: Option<String>,
    throttle: ProgressThrottle,
}

impl OutputWatch {
    /// The file that the worker announced last, if it announced one.
    pub closed spec fn announced(&self) -> Option<Seq<char>> {
        opt_text(self.announced)
    }

    /// The percentage of the last report passed on, if there was one.
    pub closed spec fn last(&self) -> Option<u64> {
        self.throttle.last()
    }

    /// When the last report was passed on, in milliseconds.
    pub closed spec fn since(&self) -> u64 {
        self.throttle.since()
    }

    /// A watch that has seen nothing yet.
    pub fn new() -> (w: Self)
        ensures
            w.announced() is None,
            w.last() is None,
    {
        OutputWatch { announced: None, throttle: ProgressThrottle::new() }
    }

    /// Takes in one line of the worker's output, read at `now_ms`. A file
    /// that the line announces is remembered in place of any before it. A
    /// progress report that is due is stored on the task's row and its
    /// announcement given back. Any other line changes nothing.
    pub fn on_stdout_line(&mut self, db: &mut Database, task_id: u64, line: &str, now_ms: u64) -> (r:
        Option<GlobalDownloadEvent>)
        requires
            old(db).wf(),
        ensures
            final(db).wf(),
            final(self).announced() == (match announced_path(line@) {
                Some(p) => Some(p),
                None => old(self).announced(),
            }),
            r is Some <==> (parsed_progress(line@) matches Some(info) && report_due(
                old(self).last(),
                info.percent,
                elapsed(old(self).since(), now_ms),
            )),
            match r {
                Some(e) => {
                    &&& parsed_progress(line@) matches Some(info)
                    &&& e@ == progress_view(task_id, info.percent, info.speed, info.eta)
                    &&& final(db).tasks() == set_progress(
                        old(db).tasks(),
                        task_id,
                        info.percent,
                        Some(shown_field(info.speed)),
                        Some(shown_field(info.eta)),
                    )
                    &&& final(self).last() == Some(info.percent)
                    &&& final(self).since() == now_ms
                },
                None => {
                    &&& final(db).tasks() == old(db).tasks()
                    &&& final(self).last() == old(self).last()
                    &&& final(self).since() == old(self).since()
                },
            },
            final(db).history() == old(db).history(),
            final(db).next_task_id() == old(db).next_task_id(),
            final(db).next_history_id() == old(db).next_history_id(),
    {
        match parse_destination_line(line) {
            Some(path) => {
                self.announced = Some(path);
            },
            None => {},
        }
        match parse_progress_line(line) {
            Some(info) => report_progress(db, &mut self.throttle, task_id, &info, now_ms),
            None => None,
        }
    }

    /// The file that the worker announced last, if it announced one.
    pub fn into_announced(self) -> (path: Option<String>)
        ensures
            opt_text(path) == self.announced(),
    {
        self.announced
    }
}

/// Takes in one line of the worker's error stream: the line, less the
/// white space at its end, is added to what was kept of the stream, and
/// the oldest bytes are dropped where the whole is over the limit.
pub fn on_stderr_line(kept: &mut String, line: &str)
    ensures
        encode_utf8(final(kept)@) == kept_tail(
            encode_utf8(joined(old(kept)@, trimmed_end(line@))),
            STDERR_BUFFER_LIMIT_BYTES as int,
        ),
        encode_utf8(final(kept)@).len() <= STDERR_BUFFER_LIMIT_BYTES,
{
    let v = to_chars(line);
    let end = trim_end_index(&v, 0, v.len());
    let text = text_of(&v, 0, end);
    append_limited(kept, text.as_str(), STDERR_BUFFER_LIMIT_BYTES);
}

/// `s` without the white space at its end.
pub open spec fn trimmed_end(s: Seq<char>) -> Seq<char> {
    s.subrange(0, drop_space_back(s, 0, s.len() as int))
}

/// Whether row `id` is there and was not cancelled.
pub open spec fn may_start(tasks: Seq<TaskView>, id: u64) -> bool {
    exists|i: int|
        0 <= i < tasks.len() && tasks[i].id == id && tasks[i].status != DownloadStatus::Cancelled
}

/// How a run ends for the manager and the queue: the slot is given back and
/// the dispatch loop has run.
pub open spec fn wound_up(
    tasks_before: Seq<TaskView>,
    count_before: u32,
    ceiling: u32,
    tasks_after: Seq<TaskView>,
    count_after: u32,
    start: Seq<u64>,
) -> bool {
    let free = free_slots(released(count_before), ceiling);
    &&& tasks_after == dispatched_rows(tasks_before, free)
    &&& start == dispatched_ids(tasks_before, free)
    &&& count_after == released(count_before) + start.len()
}

/// Ends the run of `task_id` without a word on its row: the stop signal is
/// forgotten, the slot is given back, and the dispatch loop runs. It gives
/// the tasks to start.
pub fn abandon_run(db: &mut Database, manager: &mut DownloadManager, task_id: u64) -> (start: Vec<
    u64,
>)
    requires
        old(db).wf(),
        old(manager).wf(),
    ensures
        final(db).wf(),
        final(manager).wf(),
        wound_up(
            old(db).tasks(),
            old(manager).count(),
            old(manager).ceiling(),
            final(db).tasks(),
            final(manager).count(),
            start@,
        ),
        final(manager).ceiling() == old(manager).ceiling(),
        final(manager).registered() == old(manager).registered().remove(task_id),
        final(db).history() == old(db).history(),
        final(db).next_task_id() == old(db).next_task_id(),
        final(db).next_history_id() == old(db).next_history_id(),
{
    manager.unregister_cancel(task_id);
    manager.release();
    process_next_pending(db, manager)
}

/// How a run begins: with its task, or not at all.
pub enum RunStart {
    /// The task to run.
    Go(DownloadTaskInfo),
    /// The run is off; these tasks are to be started in its place.
    Stop(Vec<u64>),
}

/// Looks the task of a run up before anything is started. A task that is
/// gone or was cancelled in the meantime is not run: its slot is given
/// back and the dispatch loop runs. Else the task is handed out and
/// nothing changes.
pub fn begin_run(db: &mut Database, manager: &mut DownloadManager, task_id: u64) -> (r: RunStart)
    requires
        old(db).wf(),
        old(manager).wf(),
    ensures
        final(db).wf(),
        final(manager).wf(),
        r is Go <==> may_start(old(db).tasks(), task_id),
        match r {
            RunStart::Go(task) => {
                &&& task.id == task_id
                &&& exists|i: int|
                    0 <= i < old(db).tasks().len() && old(db).tasks()[i] == task@
                &&& final(db).tasks() == old(db).tasks()
                &&& final(manager).count() == old(manager).count()
                &&& final(manager).registered() == old(manager).registered()
            },
            RunStart::Stop(start) => {
                &&& wound_up(
                    old(db).tasks(),
                    old(manager).count(),
                    old(manager).ceiling(),
                    final(db).tasks(),
                    final(manager).count(),
                    start@,
                )
                &&& final(manager).registered() == old(manager).registered().remove(task_id)
            },
        },
        final(manager).ceiling() == old(manager).ceiling(),
        final(db).history() == old(db).history(),
        final(db).next_task_id() == old(db).next_task_id(),
        final(db).next_history_id() == old(db).next_history_id(),
{
    proof {
        crate::db::lemma_ids_distinct(db.tasks(), db.next_task_id());
    }
    match db.get_download(task_id) {
        Some(task) => {
            if task.status == DownloadStatus::Cancelled {
                RunStart::Stop(abandon_run(db, manager, task_id))
            } else {
                RunStart::Go(task)
            }
        },
        None => RunStart::Stop(abandon_run(db, manager, task_id)),
    }
}

/// Gives the run of `task_id` its stop signal and the announcement that
/// it has started.
pub fn start_run(manager: &mut DownloadManager, task_id: u64) -> (r: (
    Receiver<bool>,
    GlobalDownloadEvent,
))
    requires
        old(manager).wf(),
    ensures
        final(manager).wf(),
        r.1@ == started_view(task_id),
        final(manager).registered() == old(manager).registered().insert(task_id),
        final(manager).count() == old(manager).count(),
        final(manager).ceiling() == old(manager).ceiling(),
{
    let receiver = manager.register_cancel(task_id);
    (receiver, started_event(task_id))
}

/// What the end of a run leaves for the caller to do.
pub struct Finished {
    /// The last announcement for the task.
    pub event: GlobalDownloadEvent,
    /// The tasks to start now.
    pub start: Vec<u64>,
}

/// The file that a finished download left: the one the worker announced,
/// else the one the task was given.
pub fn final_file_path(task: &DownloadTaskInfo, announced: &Option<String>) -> (path: String)
    ensures
        path@ == (match *announced {
            Some(p) => p@,
            None => task.output_path@,
        }),
{
    match announced {
        Some(p) => p.clone(),
        None => task.output_path.clone(),
    }
}

/// The record of the download of `task` into `file_path`.
pub open spec fn history_of(
    task: TaskView,
    file_path: Seq<char>,
    file_size: u64,
    completed_at: i64,
) -> HistoryView {
    HistoryView {
        id: 0,
        video_url: task.video_url,
        video_id: task.video_id,
        title: task.title,
        quality_label: task.quality_label,
        format: task.format_id,
        file_path: file_path,
        file_size: Some(file_size),
        downloaded_at: completed_at,
    }
}

/// The table after the run of `id` ended in `status`, with `error` as its
/// text: only a row that is still marked as running takes the new state.
pub open spec fn ended(
    tasks: Seq<TaskView>,
    id: u64,
    status: DownloadStatus,
    error: Option<Seq<char>>,
) -> Seq<TaskView> {
    if is_running(tasks, id) {
        set_status(tasks, id, status, error)
    } else {
        tasks
    }
}

fn running(db: &Database, task_id: u64) -> (b: bool)
    requires
        db.wf(),
    ensures
        b == is_running(db.tasks(), task_id),
{
    proof {
        crate::db::lemma_ids_distinct(db.tasks(), db.next_task_id());
    }
    match db.get_download(task_id) {
        Some(task) => task.status == DownloadStatus::Downloading,
        None => false,
    }
}

/// The text for a download that succeeded but could not be recorded,
/// because the history has no identifier left.
pub open spec fn unrecorded_text() -> Seq<char> {
    "Database error: "@ + full_message()
}

/// What the run of `id` leaves on the table when its process exited with
/// success at `completed_at`: where the row is still marked as running, it
/// is completed if the download can be recorded and failed if not; any
/// other row stays as it is.
pub open spec fn succeeded_or_unrecorded(
    tasks: Seq<TaskView>,
    id: u64,
    completed_at: i64,
    can_record: bool,
) -> Seq<TaskView> {
    if can_record {
        succeeded(tasks, id, completed_at)
    } else {
        ended(tasks, id, DownloadStatus::Failed, Some(unrecorded_text()))
    }
}

/// What the success of the run of `task` at `completed_at` leaves: the
/// row completed and the download recorded, both or neither, if the row
/// was still marked as running; then the slot given back and the dispatch
/// loop run.
pub open spec fn completes_at(
    before: (Seq<TaskView>, Seq<HistoryView>, u64, u32),
    after: (Seq<TaskView>, Seq<HistoryView>, u64, u32),
    ceiling: u32,
    task: TaskView,
    file_path: Seq<char>,
    file_size: u64,
    completed_at: i64,
    start: Seq<u64>,
) -> bool {
    &&& wound_up(
        succeeded_or_unrecorded(before.0, task.id, completed_at, before.2 <= MAX_ROW_ID),
        before.3,
        ceiling,
        after.0,
        after.3,
        start,
    )
    &&& is_running(before.0, task.id) && before.2 <= MAX_ROW_ID ==> {
        &&& after.1 == before.1.push(
            history_of(task, file_path, file_size, completed_at).with_id(before.2),
        )
        &&& after.2 == before.2 + 1
    }
    &&& !(is_running(before.0, task.id) && before.2 <= MAX_ROW_ID) ==> {
        &&& after.1 == before.1
        &&& after.2 == before.2
    }
}

/// The last announcement of a run whose process exited with success.
pub open spec fn completion_view(
    tasks: Seq<TaskView>,
    can_record: bool,
    task_id: u64,
    file_path: Seq<char>,
    file_size: u64,
) -> EventView {
    if !is_running(tasks, task_id) {
        cancelled_view(task_id)
    } else if can_record {
        completed_view(task_id, file_path, file_size)
    } else {
        error_view(task_id, unrecorded_text())
    }
}

/// The table, the history, its next identifier and the count of taken
/// slots, as one.
pub open spec fn queue_state(db: Database, manager: DownloadManager) -> (
    Seq<TaskView>,
    Seq<HistoryView>,
    u64,
    u32,
) {
    (db.tasks(), db.history(), db.next_history_id(), manager.count())
}

/// Ends a run whose process exited with success at `completed_at`,
/// leaving `file_path` of `file_size` bytes. If the task's row is still
/// marked as running it is completed and the download recorded in the
/// history, both in one step; where the history cannot take the record,
/// the row is marked as failed instead, so that no row is completed
/// without its record. A row that was cancelled in the meantime stays
/// cancelled and nothing is recorded. Then the stop signal is forgotten,
/// the slot given back and the dispatch loop run.
pub fn complete_run_at(
    db: &mut Database,
    manager: &mut DownloadManager,
    task: &DownloadTaskInfo,
    file_path: &str,
    file_size: u64,
    completed_at: i64,
) -> (r: Finished)
    requires
        old(db).wf(),
        old(manager).wf(),
    ensures
        final(db).wf(),
        final(manager).wf(),
        completes_at(
            queue_state(*old(db), *old(manager)),
            queue_state(*final(db), *final(manager)),
            old(manager).ceiling(),
            task@,
            file_path@,
            file_size,
            completed_at,
            r.start@,
        ),
        r.event@ == completion_view(
            old(db).tasks(),
            old(db).next_history_id() <= MAX_ROW_ID,
            task.id,
            file_path@,
            file_size,
        ),
        final(manager).ceiling() == old(manager).ceiling(),
        final(manager).registered() == old(manager).registered().remove(task.id),
        final(db).next_task_id() == old(db).next_task_id(),
{
    let task_id = task.id;
    let event = if running(db, task_id) {
        let record = HistoryItem {
            id: 0,
            video_url: task.video_url.clone(),
            video_id: task.video_id.clone(),
            title: task.title.clone(),
            quality_label: task.quality_label.clone(),
            format: task.format_id.clone(),
            file_path: file_path.to_owned(),
            file_size: Some(file_size),
            downloaded_at: completed_at,
        };
        match db.complete_and_record(task_id, completed_at, &record) {
            Ok(_) => completed_event(task_id, file_path, file_size),
            Err(e) => {
                let text = e.message();
                db.update_download_status(task_id, &DownloadStatus::Failed, Some(text.as_str()));
                error_event(task_id, text.as_str())
            },
        }
    } else {
        cancelled_event(task_id)
    };
    let start = abandon_run(db, manager, task_id);
    Finished { event, start }
}

/// Ends a run whose process exited with success just now, by the
/// machine's clock, leaving `file_path` of `file_size` bytes; see
/// `complete_run_at`.
pub fn complete_run(
    db: &mut Database,
    manager: &mut DownloadManager,
    task: &DownloadTaskInfo,
    file_path: &str,
    file_size: u64,
) -> (r: Finished)
    requires
        old(db).wf(),
        old(manager).wf(),
    ensures
        final(db).wf(),
        final(manager).wf(),
        exists|completed_at: i64|
            #[trigger] completes_at(
                queue_state(*old(db), *old(manager)),
                queue_state(*final(db), *final(manager)),
                old(manager).ceiling(),
                task@,
                file_path@,
                file_size,
                completed_at,
                r.start@,
            ),
        r.event@ == completion_view(
            old(db).tasks(),
            old(db).next_history_id() <= MAX_ROW_ID,
            task.id,
            file_path@,
            file_size,
        ),
        final(manager).ceiling() == old(manager).ceiling(),
        final(manager).registered() == old(manager).registered().remove(task.id),
        final(db).next_task_id() == old(db).next_task_id(),
{
    let completed_at = unix_now();
    complete_run_at(db, manager, task, file_path, file_size, completed_at)
}

/// Ends a run that failed. If the task's row is still marked as running it
/// is marked as failed with `stored` as its text; a row that was cancelled
/// in the meantime stays cancelled. `shown` goes into the announcement.
/// Then the stop signal is forgotten, the slot given back and the dispatch
/// loop run.
pub fn fail_run(
    db: &mut Database,
    manager: &mut DownloadManager,
    task_id: u64,
    stored: &str,
    shown: &str,
) -> (r: Finished)
    requires
        old(db).wf(),
        old(manager).wf(),
    ensures
        final(db).wf(),
        final(manager).wf(),
        wound_up(
            ended(old(db).tasks(), task_id, DownloadStatus::Failed, Some(stored@)),
            old(manager).count(),
            old(manager).ceiling(),
            final(db).tasks(),
            final(manager).count(),
            r.start@,
        ),
        is_running(old(db).tasks(), task_id) ==> r.event@ == error_view(task_id, shown@),
        !is_running(old(db).tasks(), task_id) ==> r.event@ == cancelled_view(task_id),
        final(manager).ceiling() == old(manager).ceiling(),
        final(manager).registered() == old(manager).registered().remove(task_id),
        final(db).history() == old(db).history(),
        final(db).next_task_id() == old(db).next_task_id(),
        final(db).next_history_id() == old(db).next_history_id(),
{
    let event = if running(db, task_id) {
        db.update_download_status(task_id, &DownloadStatus::Failed, Some(stored));
        error_event(task_id, shown)
    } else {
        cancelled_event(task_id)
    };
    let start = abandon_run(db, manager, task_id);
    Finished { event, start }
}

/// The text stored on a task whose worker could not be found.
pub open spec fn missing_worker_text() -> Seq<char> {
    "yt-dlp not found. Please install via Homebrew or click Install."@
}

/// The words announced for a task whose worker could not be found.
pub open spec fn missing_worker_words() -> Seq<char> {
    "yt-dlp not found"@
}

/// Ends a run whose worker could not be found before anything was started.
pub fn fail_missing_worker(db: &mut Database, manager: &mut DownloadManager, task_id: u64) -> (r:
    Finished)
    requires
        old(db).wf(),
        old(manager).wf(),
    ensures
        final(db).wf(),
        final(manager).wf(),
        wound_up(
            ended(old(db).tasks(), task_id, DownloadStatus::Failed, Some(missing_worker_text())),
            old(manager).count(),
            old(manager).ceiling(),
            final(db).tasks(),
            final(manager).count(),
            r.start@,
        ),
        is_running(old(db).tasks(), task_id) ==> r.event@ == error_view(
            task_id,
            missing_worker_words(),
        ),
        !is_running(old(db).tasks(), task_id) ==> r.event@ == cancelled_view(task_id),
        final(manager).ceiling() == old(manager).ceiling(),
        final(manager).registered() == old(manager).registered().remove(task_id),
        final(db).history() == old(db).history(),
        final(db).next_task_id() == old(db).next_task_id(),
        final(db).next_history_id() == old(db).next_history_id(),
{
    fail_run(
        db,
        manager,
        task_id,
        "yt-dlp not found. Please install via Homebrew or click Install.",
        "yt-dlp not found",
    )
}

/// Ends a run whose process was stopped on a stop signal. A row that is
/// still marked as running is marked as cancelled; one that was cancelled
/// already stays so. Then the stop signal is forgotten, the slot given
/// back and the dispatch loop run.
pub fn cancel_run(db: &mut Database, manager: &mut DownloadManager, task_id: u64) -> (r: Finished)
    requires
        old(db).wf(),
        old(manager).wf(),
    ensures
        final(db).wf(),
        final(manager).wf(),
        wound_up(
            ended(old(db).tasks(), task_id, DownloadStatus::Cancelled, None),
            old(manager).count(),
            old(manager).ceiling(),
            final(db).tasks(),
            final(manager).count(),
            r.start@,
        ),
        r.event@ == cancelled_view(task_id),
        final(manager).ceiling() == old(manager).ceiling(),
        final(manager).registered() == old(manager).registered().remove(task_id),
        final(db).history() == old(db).history(),
        final(db).next_task_id() == old(db).next_task_id(),
        final(db).next_history_id() == old(db).next_history_id(),
{
    if running(db, task_id) {
        db.update_download_status(task_id, &DownloadStatus::Cancelled, None);
    }
    let start = abandon_run(db, manager, task_id);
    Finished { event: cancelled_event(task_id), start }
}

} // verus!
