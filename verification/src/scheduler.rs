//! The dispatch loop and the requests that feed it: enqueue, retry, cancel.
//!
//! Each function here works on the task table and the manager together and
//! gives back the tasks whose download is to be started by the caller.

use crate::clock::unix_now;
use crate::db::Database;
use crate::db::MAX_ROW_ID;
use crate::db::active_rows;
use crate::db::cancel_active;
use crate::db::claimed;
use crate::db::full_message;
use crate::db::has_pending;
use crate::db::has_task;
use crate::db::is_cancellable;
use crate::db::low32;
use crate::db::new_task;
use crate::db::oldest_pending;
use crate::db::selected_from;
use crate::db::set_status;
use crate::db::task_ids;
use crate::error::AppError;
use crate::manager::DownloadManager;
use crate::status::DownloadStatus;
use crate::types::DownloadRequest;
use crate::types::TaskView;
use vstd::prelude::*;

verus! {

/// How many slots of the manager are free.
pub open spec fn free_slots(count: u32, ceiling: u32) -> nat {
    if count < ceiling {
        (ceiling - count) as nat
    } else {
        0
    }
}

/// The table after the dispatch loop ran with `free` slots: it claims the
/// oldest waiting row as long as a slot is free and a row is waiting.
pub open spec fn dispatched_rows(tasks: Seq<TaskView>, free: nat) -> Seq<TaskView>
    decreases free,
{
    if free == 0 || !has_pending(tasks) {
        tasks
    } else {
        dispatched_rows(claimed(tasks), (free - 1) as nat)
    }
}

/// The identifiers of the rows that the dispatch loop claims with `free`
/// slots, in the order in which it claims them.
pub open spec fn dispatched_ids(tasks: Seq<TaskView>, free: nat) -> Seq<u64>
    decreases free,
{
    if free == 0 || !has_pending(tasks) {
        Seq::empty()
    } else {
        seq![tasks[oldest_pending(tasks)->0].id] + dispatched_ids(
            claimed(tasks),
            (free - 1) as nat,
        )
    }
}

/// Runs the dispatch loop: while the manager has a free slot and a row waits,
/// it takes the slot and claims the oldest waiting row. It gives the
/// identifiers of the rows claimed, for the caller to start.
pub fn process_next_pending(db: &mut Database, manager: &mut DownloadManager) -> (started: Vec<u64>)
    requires
        old(db).wf(),
        old(manager).wf(),
    ensures
        final(db).wf(),
        final(manager).wf(),
        started@ == dispatched_ids(
            old(db).tasks(),
            free_slots(old(manager).count(), old(manager).ceiling()),
        ),
        final(db).tasks() == dispatched_rows(
            old(db).tasks(),
            free_slots(old(manager).count(), old(manager).ceiling()),
        ),
        final(manager).count() == old(manager).count() + started@.len(),
        final(manager).ceiling() == old(manager).ceiling(),
        final(manager).registered() == old(manager).registered(),
        final(db).history() == old(db).history(),
        final(db).next_task_id() == old(db).next_task_id(),
        final(db).next_history_id() == old(db).next_history_id(),
{
    let mut started: Vec<u64> = Vec::new();
    let ghost tasks0 = db.tasks();
    let ghost free0 = free_slots(manager.count(), manager.ceiling());
    loop
        invariant
            db.wf(),
            manager.wf(),
            tasks0 == old(db).tasks(),
            free0 == free_slots(old(manager).count(), old(manager).ceiling()),
            dispatched_ids(tasks0, free0) == started@ + dispatched_ids(
                db.tasks(),
                free_slots(manager.count(), manager.ceiling()),
            ),
            dispatched_rows(tasks0, free0) == dispatched_rows(
                db.tasks(),
                free_slots(manager.count(), manager.ceiling()),
            ),
            manager.count() == old(manager).count() + started@.len(),
            manager.ceiling() == old(manager).ceiling(),
            manager.registered() == old(manager).registered(),
            db.history() == old(db).history(),
            db.next_task_id() == old(db).next_task_id(),
            db.next_history_id() == old(db).next_history_id(),
        ensures
            started@ == dispatched_ids(tasks0, free0),
            db.tasks() == dispatched_rows(tasks0, free0),
        decreases free_slots(manager.count(), manager.ceiling()),
    {
        let ghost free = free_slots(manager.count(), manager.ceiling());
        let ghost before = db.tasks();
        if !manager.try_acquire() {
            assert(started@ + Seq::<u64>::empty() =~= started@);
            break;
        }
        match db.claim_next_pending() {
            Some(task) => {
                proof {
                    let rest = dispatched_ids(
                        claimed(before),
                        free_slots(manager.count(), manager.ceiling()),
                    );
                    assert((started@ + (seq![task.id] + rest)) =~= started@.push(task.id) + rest);
                }
                started.push(task.id);
            },
            None => {
                manager.release();
                assert(started@ + Seq::<u64>::empty() =~= started@);
                break;
            },
        }
    }
    started
}

/// What the recovery after a restart did.
pub struct Recovery {
    /// The low 32 bits of the number of rows that were found marked as running.
    pub reset: u32,
    /// The tasks to start now.
    pub start: Vec<u64>,
}

/// Repairs the table after a restart and sets the queue going. A row
/// that the last process left marked as running is marked as failed, with
/// the text that tells of the restart; it is not run again by itself. The
/// rows that wait are untouched by that, and the dispatch loop then
/// claims as many of them as the manager has slots.
pub fn startup_recovery(db: &mut Database, manager: &mut DownloadManager) -> (r: Recovery)
    requires
        old(db).wf(),
        old(manager).wf(),
    ensures
        final(db).wf(),
        final(manager).wf(),
        r.reset == low32(crate::db::downloading_count(old(db).tasks())),
        final(db).tasks() == dispatched_rows(
            crate::db::fail_stale(old(db).tasks()),
            free_slots(old(manager).count(), old(manager).ceiling()),
        ),
        r.start@ == dispatched_ids(
            crate::db::fail_stale(old(db).tasks()),
            free_slots(old(manager).count(), old(manager).ceiling()),
        ),
        final(manager).count() == old(manager).count() + r.start@.len(),
        final(manager).ceiling() == old(manager).ceiling(),
        final(manager).registered() == old(manager).registered(),
        final(db).history() == old(db).history(),
        final(db).next_task_id() == old(db).next_task_id(),
        final(db).next_history_id() == old(db).next_history_id(),
{
    let reset = db.reset_stale_downloads();
    let start = process_next_pending(db, manager);
    Recovery { reset, start }
}

/// A task that was put into the queue, and the tasks to start now.
pub struct Enqueued {
    pub task_id: u64,
    pub start: Vec<u64>,
}

/// The directory that a request's file goes to: the one it names, else
/// the one of the settings.
pub fn output_dir<'a>(request: &'a DownloadRequest, download_path: &'a str) -> (dir: &'a str)
    ensures
        dir@ == (match request.output_dir {
            Some(d) => d@,
            None => download_path@,
        }),
{
    match &request.output_dir {
        Some(d) => d.as_str(),
        None => download_path,
    }
}

/// A new row as it is put into the table: running where a slot is free,
/// else as it is.
pub open spec fn placed(row: TaskView, count: u32, ceiling: u32) -> TaskView {
    if count < ceiling {
        row.with_only_status(DownloadStatus::Downloading)
    } else {
        row
    }
}

/// The row that `request` becomes: running where a slot was free, else waiting.
pub open spec fn enqueued_row(
    id: u64,
    request: DownloadRequest,
    output_path: Seq<char>,
    created_at: i64,
    count: u32,
    ceiling: u32,
) -> TaskView {
    placed(new_task(id, request, output_path, created_at), count, ceiling)
}

/// Puts `request` into the queue, as created now by the machine's clock.
/// With a free slot the new task takes it and is to be started at once;
/// without one it waits. It fails, and changes nothing, only when the
/// table has no identifier left.
pub fn add_to_queue(
    db: &mut Database,
    manager: &mut DownloadManager,
    request: &DownloadRequest,
    output_path: &str,
) -> (r: Result<Enqueued, AppError>)
    requires
        old(db).wf(),
        old(manager).wf(),
    ensures
        final(db).wf(),
        final(manager).wf(),
        final(manager).ceiling() == old(manager).ceiling(),
        final(manager).registered() == old(manager).registered(),
        final(db).history() == old(db).history(),
        final(db).next_history_id() == old(db).next_history_id(),
        r is Ok <==> old(db).next_task_id() <= MAX_ROW_ID,
        match r {
            Ok(e) => {
                &&& e.task_id == old(db).next_task_id()
                &&& final(db).next_task_id() == e.task_id + 1
                &&& exists|created_at: i64|
                    final(db).tasks() == old(db).tasks().push(
                        #[trigger] enqueued_row(
                            e.task_id,
                            *request,
                            output_path@,
                            created_at,
                            old(manager).count(),
                            old(manager).ceiling(),
                        ),
                    )
                &&& old(manager).count() < old(manager).ceiling() ==> e.start@ == seq![e.task_id]
                    && final(manager).count() == old(manager).count() + 1
                &&& old(manager).count() >= old(manager).ceiling() ==> e.start@ == Seq::<
                    u64,
                >::empty() && final(manager).count() == old(manager).count()
            },
            Err(e) => {
                &&& e matches AppError::DatabaseError(m)
                &&& m@ == full_message()
                &&& final(db).tasks() == old(db).tasks()
                &&& final(db).next_task_id() == old(db).next_task_id()
                &&& final(manager).count() == old(manager).count()
            },
        },
{
    let created_at = unix_now();
    add_to_queue_at(db, manager, request, output_path, created_at)
}

/// Puts `request` into the queue, as created at `created_at`. With a free
/// slot the new task takes it and is to be started at once; without one it
/// waits. It fails, and changes nothing, only when the table has no
/// identifier left.
pub fn add_to_queue_at(
    db: &mut Database,
    manager: &mut DownloadManager,
    request: &DownloadRequest,
    output_path: &str,
    created_at: i64,
) -> (r: Result<Enqueued, AppError>)
    requires
        old(db).wf(),
        old(manager).wf(),
    ensures
        final(db).wf(),
        final(manager).wf(),
        final(manager).ceiling() == old(manager).ceiling(),
        final(manager).registered() == old(manager).registered(),
        final(db).history() == old(db).history(),
        final(db).next_history_id() == old(db).next_history_id(),
        r is Ok <==> old(db).next_task_id() <= MAX_ROW_ID,
        match r {
            Ok(e) => {
                &&& e.task_id == old(db).next_task_id()
                &&& final(db).next_task_id() == e.task_id + 1
                &&& final(db).tasks() == old(db).tasks().push(
                    enqueued_row(
                        e.task_id,
                        *request,
                        output_path@,
                        created_at,
                        old(manager).count(),
                        old(manager).ceiling(),
                    ),
                )
                &&& old(manager).count() < old(manager).ceiling() ==> e.start@ == seq![e.task_id]
                    && final(manager).count() == old(manager).count() + 1
                &&& old(manager).count() >= old(manager).ceiling() ==> e.start@ == Seq::<
                    u64,
                >::empty() && final(manager).count() == old(manager).count()
            },
            Err(e) => {
                &&& e matches AppError::DatabaseError(m)
                &&& m@ == full_message()
                &&& final(db).tasks() == old(db).tasks()
                &&& final(db).next_task_id() == old(db).next_task_id()
                &&& final(manager).count() == old(manager).count()
            },
        },
{
    let task_id = match db.insert_download_at(request, output_path, created_at) {
        Ok(id) => id,
        Err(e) => {
            return Err(e);
        },
    };
    let ghost row = new_task(task_id, *request, output_path@, created_at);
    if manager.try_acquire() {
        let ghost before = db.tasks();
        db.update_download_status(task_id, &DownloadStatus::Downloading, None);
        proof {
            let ids = task_ids(before);
            assert forall|k: int| 0 <= k < old(db).tasks().len() implies before[k].id
                != task_id by {
                assert(ids[k] == before[k].id);
                assert(ids[before.len() - 1] == task_id);
            }
            assert(db.tasks() =~= old(db).tasks().push(
                row.with_only_status(DownloadStatus::Downloading),
            ));
        }
        let mut start: Vec<u64> = Vec::new();
        start.push(task_id);
        Ok(Enqueued { task_id, start })
    } else {
        let start = process_next_pending(db, manager);
        Ok(Enqueued { task_id, start })
    }
}

/// Whether a row in this state may be retried.
pub open spec fn retryable(status: DownloadStatus) -> bool {
    status == DownloadStatus::Failed || status == DownloadStatus::Cancelled
}

/// Whether row `id` is there and has failed or was cancelled.
pub open spec fn can_retry(tasks: Seq<TaskView>, id: u64) -> bool {
    exists|i: int| 0 <= i < tasks.len() && tasks[i].id == id && retryable(tasks[i].status)
}

/// The text of the error for a retry of a task that is not there.
pub open spec fn not_found_message() -> Seq<char> {
    "Download task not found"@
}

/// The text of the error for a retry of a task that has not failed and
/// was not cancelled.
pub open spec fn not_retryable_message() -> Seq<char> {
    "Download task cannot be retried"@
}

/// Sends a task that failed or was cancelled back into the queue, under
/// the identifier it has. With a free slot it takes the slot and is to be
/// started at once, which the result says; without one it waits. A task
/// that is not there, or is in another state, is refused and nothing changes.
pub fn retry_download(db: &mut Database, manager: &mut DownloadManager, task_id: u64) -> (r:
    Result<bool, AppError>)
    requires
        old(db).wf(),
        old(manager).wf(),
    ensures
        final(db).wf(),
        final(manager).wf(),
        final(manager).ceiling() == old(manager).ceiling(),
        final(manager).registered() == old(manager).registered(),
        final(db).history() == old(db).history(),
        final(db).next_task_id() == old(db).next_task_id(),
        final(db).next_history_id() == old(db).next_history_id(),
        r is Ok <==> can_retry(old(db).tasks(), task_id),
        match r {
            Ok(start) => {
                &&& start == (old(manager).count() < old(manager).ceiling())
                &&& final(db).tasks() == set_status(
                    old(db).tasks(),
                    task_id,
                    if start {
                        DownloadStatus::Downloading
                    } else {
                        DownloadStatus::Pending
                    },
                    None,
                )
                &&& final(manager).count() == old(manager).count() + (if start {
                    1int
                } else {
                    0int
                })
            },
            Err(e) => {
                &&& e matches AppError::Custom(m)
                &&& m@ == (if has_task(old(db).tasks(), task_id) {
                    not_retryable_message()
                } else {
                    not_found_message()
                })
                &&& final(db).tasks() == old(db).tasks()
                &&& final(manager).count() == old(manager).count()
            },
        },
{
    let task = match db.get_download(task_id) {
        Some(t) => t,
        None => {
            return Err(AppError::Custom("Download task not found".to_owned()));
        },
    };
    proof {
        crate::db::lemma_ids_distinct(db.tasks(), db.next_task_id());
    }
    if !(task.status == DownloadStatus::Failed || task.status == DownloadStatus::Cancelled) {
        return Err(AppError::Custom("Download task cannot be retried".to_owned()));
    }
    db.update_download_status(task_id, &DownloadStatus::Pending, None);
    if manager.try_acquire() {
        db.update_download_status(task_id, &DownloadStatus::Downloading, None);
        assert(db.tasks() =~= set_status(
            old(db).tasks(),
            task_id,
            DownloadStatus::Downloading,
            None,
        ));
        Ok(true)
    } else {
        Ok(false)
    }
}

/// The text of the error that pausing and resuming give.
pub open spec fn not_implemented_message() -> Seq<char> {
    "Not yet implemented"@
}

/// Pausing a download is not offered: the request is refused.
pub fn pause_download(task_id: u64) -> (r: Result<(), AppError>)
    ensures
        r matches Err(AppError::Custom(m)) && m@ == not_implemented_message(),
{
    Err(AppError::Custom("Not yet implemented".to_owned()))
}

/// Resuming a download is not offered: the request is refused.
pub fn resume_download(task_id: u64) -> (r: Result<(), AppError>)
    ensures
        r matches Err(AppError::Custom(m)) && m@ == not_implemented_message(),
{
    Err(AppError::Custom("Not yet implemented".to_owned()))
}

/// Cancels task `task_id` if it is still waiting or running, and raises
/// its stop signal. A task that has ended is left as it is, and so is its
/// signal. The result says whether the task was cancelled.
pub fn cancel_download(
    db: &mut Database,
    manager: &mut DownloadManager,
    task_id: u64,
) -> (cancelled: bool)
    requires
        old(db).wf(),
        old(manager).wf(),
    ensures
        final(db).wf(),
        final(manager).wf(),
        cancelled == is_cancellable(old(db).tasks(), task_id),
        final(db).tasks() == cancel_active(old(db).tasks(), task_id),
        !cancelled ==> final(db).tasks() == old(db).tasks() && final(manager).registered() == old(
            manager,
        ).registered(),
        cancelled ==> final(manager).registered() == old(manager).registered().remove(task_id),
        final(manager).count() == old(manager).count(),
        final(manager).ceiling() == old(manager).ceiling(),
        final(db).history() == old(db).history(),
        final(db).next_task_id() == old(db).next_task_id(),
        final(db).next_history_id() == old(db).next_history_id(),
{
    let cancelled = db.cancel_if_active(task_id);
    if cancelled {
        manager.send_cancel(task_id);
    }
    cancelled
}

/// The table after every row that was waiting or running was cancelled.
pub open spec fn cancel_all_rows(tasks: Seq<TaskView>) -> Seq<TaskView> {
    tasks.map_values(
        |t: TaskView|
            if t.status.is_active() {
                t.with_only_status(DownloadStatus::Cancelled)
            } else {
                t
            },
    )
}

/// The stop signals that are left once those of `ids` were raised.
pub open spec fn without_all(registered: Set<u64>, ids: Seq<u64>) -> Set<u64> {
    registered.difference(ids.to_set())
}

/// The table once the first `k` of `ids` were cancelled.
spec fn cancelled_upto(tasks: Seq<TaskView>, ids: Seq<u64>, k: int) -> Seq<TaskView> {
    tasks.map_values(
        |t: TaskView|
            if t.status.is_active() && ids.take(k).contains(t.id) {
                t.with_only_status(DownloadStatus::Cancelled)
            } else {
                t
            },
    )
}

/// Cancels every task that is waiting or running, raises their stop
/// signals, and sets the manager's count to the number of rows still marked
/// as running, which is none. It gives the low 32 bits of the number of
/// tasks cancelled.
pub fn cancel_all_downloads(db: &mut Database, manager: &mut DownloadManager) -> (n: u32)
    requires
        old(db).wf(),
        old(manager).wf(),
    ensures
        final(db).wf(),
        final(manager).wf(),
        final(db).tasks() == cancel_all_rows(old(db).tasks()),
        n == low32(active_rows(old(db).tasks()).len()),
        final(manager).count() == 0,
        final(manager).ceiling() == old(manager).ceiling(),
        final(manager).registered() == without_all(
            old(manager).registered(),
            task_ids(active_rows(old(db).tasks())),
        ),
        final(db).history() == old(db).history(),
        final(db).next_task_id() == old(db).next_task_id(),
        final(db).next_history_id() == old(db).next_history_id(),
{
    let ids = db.get_cancellable_ids();
    let ghost tasks0 = db.tasks();
    let mut cancelled: u64 = 0;
    let mut k: usize = 0;
    proof {
        let pred = |t: TaskView| t.status.is_active();
        crate::db::lemma_ids_grow(tasks0, db.next_task_id());
        crate::db::lemma_filter_keeps_order(tasks0, pred);
        let f = tasks0.filter(pred);
        assert forall|a: int| 0 <= a < ids@.len() implies is_cancellable(
            tasks0,
            #[trigger] ids@[a],
        ) by {
            assert(selected_from(tasks0, pred, f[a]));
            let j = choose|j: int|
                0 <= j < tasks0.len() && pred(tasks0[j]) && #[trigger] tasks0[j] == f[a];
            assert(tasks0[j].id == ids@[a]);
        }
        assert forall|a: int, b: int| 0 <= a < b < ids@.len() implies ids@[a] < ids@[b] by {
            assert(f[a].id < f[b].id);
        }
        assert(ids@.take(0) =~= Seq::<u64>::empty());
        assert(db.tasks() =~= cancelled_upto(tasks0, ids@, 0));
        assert(manager.registered() =~= without_all(manager.registered(), ids@.take(0)));
    }
    while k < ids.len()
        invariant
            k <= ids@.len(),
            db.wf(),
            manager.wf(),
            tasks0 == old(db).tasks(),
            ids@ == task_ids(active_rows(tasks0)),
            forall|a: int, b: int| 0 <= a < b < ids@.len() ==> ids@[a] < ids@[b],
            forall|a: int| 0 <= a < ids@.len() ==> is_cancellable(tasks0, #[trigger] ids@[a]),
            db.tasks() == cancelled_upto(tasks0, ids@, k as int),
            cancelled == k,
            manager.count() == old(manager).count(),
            manager.ceiling() == old(manager).ceiling(),
            manager.registered() == without_all(old(manager).registered(), ids@.take(k as int)),
            db.history() == old(db).history(),
            db.next_task_id() == old(db).next_task_id(),
            db.next_history_id() == old(db).next_history_id(),
        decreases ids@.len() - k,
    {
        let id = ids[k];
        let ghost before = db.tasks();
        proof {
            assert(is_cancellable(tasks0, ids@[k as int]));
            let j = choose|j: int|
                0 <= j < tasks0.len() && tasks0[j].id == id && tasks0[j].status.is_active();
            assert(!ids@.take(k as int).contains(id)) by {
                let prev = ids@.take(k as int);
                if prev.contains(id) {
                    let a = choose|a: int| 0 <= a < prev.len() && prev[a] == id;
                    assert(ids@[a] < ids@[k as int]);
                }
            }
            assert(before[j] == tasks0[j]);
            assert(is_cancellable(before, id));
        }
        let was = db.cancel_if_active(id);
        assert(was);
        manager.send_cancel(id);
        cancelled += 1;
        proof {
            let prev = ids@.take(k as int);
            let next = ids@.take(k + 1);
            assert(next =~= prev.push(id));
            assert(db.tasks() =~= cancelled_upto(tasks0, ids@, k + 1)) by {
                assert forall|j: int| 0 <= j < tasks0.len() implies db.tasks()[j]
                    == cancelled_upto(tasks0, ids@, k + 1)[j] by {
                    let t = tasks0[j];
                    if prev.contains(t.id) {
                        let a = choose|a: int| 0 <= a < prev.len() && prev[a] == t.id;
                        assert(next[a] == t.id);
                    }
                    if next.contains(t.id) && t.id != id {
                        let a = choose|a: int| 0 <= a < next.len() && next[a] == t.id;
                        assert(prev[a] == t.id);
                    }
                    if t.id == id {
                        assert(next[k as int] == id);
                    }
                }
            }
            assert(manager.registered() =~= without_all(
                old(manager).registered(),
                ids@.take(k + 1),
            )) by {
                assert forall|x: u64|
                    manager.registered().contains(x) == without_all(
                        old(manager).registered(),
                        ids@.take(k + 1),
                    ).contains(x) by {
                    if prev.contains(x) {
                        let a = choose|a: int| 0 <= a < prev.len() && prev[a] == x;
                        assert(next[a] == x);
                    }
                    if next.contains(x) && x != id {
                        let a = choose|a: int| 0 <= a < next.len() && next[a] == x;
                        assert(prev[a] == x);
                    }
                    if x == id {
                        assert(next[k as int] == id);
                    }
                }
            }
        }
        k += 1;
    }
    proof {
        assert(ids@.take(k as int) =~= ids@);
        assert(db.tasks() =~= cancel_all_rows(tasks0)) by {
            assert forall|j: int| 0 <= j < tasks0.len() implies db.tasks()[j] == cancel_all_rows(
                tasks0,
            )[j] by {
                let t = tasks0[j];
                if t.status.is_active() {
                    let pred = |t: TaskView| t.status.is_active();
                    Seq::lemma_filter_contains(tasks0, pred, j);
                    let f = tasks0.filter(pred);
                    let a = choose|a: int| 0 <= a < f.len() && f[a] == t;
                    assert(ids@[a] == t.id);
                }
            }
        }
        lemma_none_running_after_cancel_all(tasks0);
    }
    let actual = match db.get_active_count() {
        Ok(c) => c,
        Err(_) => 0,
    };
    manager.sync_active_count(actual);
    low32_64(cancelled)
}

fn low32_64(n: u64) -> (r: u32)
    ensures
        r == low32(n as nat),
{
    let low: u64 = n & 0xffff_ffff;
    assert(low == n % 0x1_0000_0000 && low <= 0xffff_ffff) by (bit_vector)
        requires
            low == n & 0xffff_ffff,
    ;
    low as u32
}

/// Once every waiting or running row was cancelled, no row is marked as running.
pub proof fn lemma_none_running_after_cancel_all(tasks: Seq<TaskView>)
    ensures
        crate::db::downloading_count(cancel_all_rows(tasks)) == 0,
{
    let pred = |t: TaskView| t.status == DownloadStatus::Downloading;
    let after = cancel_all_rows(tasks);
    let f = after.filter(pred);
    if f.len() > 0 {
        Seq::lemma_filter_pred(after, pred, 0);
        assert(f.contains(f[0]));
        Seq::lemma_filter_contains_rev(after, pred, f[0]);
        let k = choose|k: int| 0 <= k < after.len() && after[k] == f[0];
        assert(after[k].status != DownloadStatus::Downloading);
    }
}

} // verus!
