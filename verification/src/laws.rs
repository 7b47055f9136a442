//! What holds of the queue as a whole: laws that relate the table, the
//! manager and the dispatch loop, each proved from the definitions that the
//! contracts of the functions use.

use crate::db::MAX_ROW_ID;
use crate::db::cancel_active;
use crate::db::claimed;
use crate::db::downloading_count;
use crate::db::fail_stale;
use crate::db::has_pending;
use crate::db::is_cancellable;
use crate::db::is_oldest_pending;
use crate::db::lemma_none_downloading;
use crate::db::lemma_oldest_pending_found;
use crate::db::oldest_pending;
use crate::db::pending_count;
use crate::db::set_status;
use crate::db::stale_message;
use crate::db::task_ids;
use crate::executor::completes_at;
use crate::executor::ended;
use crate::executor::history_of;
use crate::db::is_running;
use crate::db::succeeded;
use crate::executor::succeeded_or_unrecorded;
use crate::manager::acquired;
use crate::manager::released;
use crate::scheduler::can_retry;
use crate::scheduler::cancel_all_rows;
use crate::scheduler::dispatched_ids;
use crate::scheduler::dispatched_rows;
use crate::scheduler::free_slots;
use crate::scheduler::placed;
use crate::status::DownloadStatus;
use crate::types::HistoryView;
use crate::types::TaskView;
use vstd::prelude::*;

verus! {

/// The smaller of two numbers.
pub open spec fn least(a: int, b: int) -> int {
    if a <= b {
        a
    } else {
        b
    }
}

/// No two rows share an identifier.
pub open spec fn distinct_ids(tasks: Seq<TaskView>) -> bool {
    forall|i: int, j: int|
        0 <= i < tasks.len() && 0 <= j < tasks.len() && tasks[i].id == tasks[j].id ==> i == j
}

/// The edges of the life of a task: a waiting task starts or is
/// cancelled; a running one completes, fails or is cancelled; one that
/// failed or was cancelled may be sent back to wait.
pub open spec fn is_edge(from: DownloadStatus, to: DownloadStatus) -> bool {
    match from {
        DownloadStatus::Pending => to == DownloadStatus::Downloading || to
            == DownloadStatus::Cancelled,
        DownloadStatus::Downloading => to.is_terminal(),
        DownloadStatus::Failed => to == DownloadStatus::Pending,
        DownloadStatus::Cancelled => to == DownloadStatus::Pending,
        _ => false,
    }
}

/// Every row of `before` is still there in `after`, at its place and under
/// its identifier, and its state is the same or one edge further.
pub open spec fn rows_advance(before: Seq<TaskView>, after: Seq<TaskView>) -> bool {
    &&& after.len() == before.len()
    &&& forall|i: int|
        0 <= i < before.len() ==> (#[trigger] after[i]).id == before[i].id && (after[i].status
            == before[i].status || is_edge(before[i].status, after[i].status))
}

/// Every row of `before` is as it was in `after`, or it waited and now runs.
pub open spec fn rows_started(before: Seq<TaskView>, after: Seq<TaskView>) -> bool {
    &&& after.len() == before.len()
    &&& forall|i: int|
        0 <= i < before.len() ==> (#[trigger] after[i]) == before[i] || (before[i].status
            == DownloadStatus::Pending && after[i] == before[i].with_only_status(
            DownloadStatus::Downloading,
        ))
}

/// Replacing one element changes the number of selected elements by what
/// the old and the new element count for.
pub proof fn lemma_filter_len_update(
    s: Seq<TaskView>,
    i: int,
    v: TaskView,
    pred: spec_fn(TaskView) -> bool,
)
    requires
        0 <= i < s.len(),
    ensures
        s.update(i, v).filter(pred).len() == s.filter(pred).len() - (if pred(s[i]) {
            1int
        } else {
            0int
        }) + (if pred(v) {
            1int
        } else {
            0int
        }),
{
    let a = s.take(i);
    let b = s.skip(i + 1);
    assert(s =~= a.push(s[i]) + b);
    assert(s.update(i, v) =~= a.push(v) + b);
    Seq::filter_distributes_over_add(a.push(s[i]), b, pred);
    Seq::filter_distributes_over_add(a.push(v), b, pred);
    Seq::lemma_filter_push(a, s[i], pred);
    Seq::lemma_filter_push(a, v, pred);
}

/// Some row waits exactly when the number of waiting rows is not zero.
pub proof fn lemma_pending_count_positive(tasks: Seq<TaskView>)
    ensures
        has_pending(tasks) <==> pending_count(tasks) > 0,
{
    let pred = |t: TaskView| t.status == DownloadStatus::Pending;
    let f = tasks.filter(pred);
    if has_pending(tasks) {
        let i = choose|i: int| 0 <= i < tasks.len() && tasks[i].status == DownloadStatus::Pending;
        Seq::lemma_filter_contains(tasks, pred, i);
    }
    if f.len() > 0 {
        Seq::lemma_filter_pred(tasks, pred, 0);
        assert(f.contains(f[0]));
        Seq::lemma_filter_contains_rev(tasks, pred, f[0]);
        let k = choose|k: int| 0 <= k < tasks.len() && tasks[k] == f[0];
        assert(tasks[k].status == DownloadStatus::Pending);
    }
}

/// One claim: the oldest waiting row starts to run, all else stays. One
/// row less waits, one more runs.
pub proof fn lemma_claim_counts(tasks: Seq<TaskView>)
    requires
        has_pending(tasks),
    ensures
        rows_started(tasks, claimed(tasks)),
        pending_count(claimed(tasks)) == pending_count(tasks) - 1,
        downloading_count(claimed(tasks)) == downloading_count(tasks) + 1,
        oldest_pending(tasks) matches Some(i) && is_oldest_pending(tasks, i) && claimed(tasks)
            == tasks.update(i, tasks[i].with_only_status(DownloadStatus::Downloading)),
{
    lemma_oldest_pending_found(tasks);
    let i = oldest_pending(tasks)->0;
    let row = tasks[i].with_only_status(DownloadStatus::Downloading);
    lemma_filter_len_update(tasks, i, row, |t: TaskView| t.status == DownloadStatus::Pending);
    lemma_filter_len_update(tasks, i, row, |t: TaskView| t.status == DownloadStatus::Downloading);
}

/// The dispatch loop with `free` slots starts as many rows as wait, up to
/// `free`: so many rows less wait, so many more run, and no row waits on
/// while a slot is left. Every row stays at its place, and a state
/// changes only from waiting to running.
pub proof fn law_dispatch_counts(tasks: Seq<TaskView>, free: nat)
    ensures
        dispatched_ids(tasks, free).len() == least(free as int, pending_count(tasks) as int),
        pending_count(dispatched_rows(tasks, free)) == pending_count(tasks) - dispatched_ids(
            tasks,
            free,
        ).len(),
        downloading_count(dispatched_rows(tasks, free)) == downloading_count(tasks)
            + dispatched_ids(tasks, free).len(),
        dispatched_ids(tasks, free).len() == free || !has_pending(dispatched_rows(tasks, free)),
        rows_started(tasks, dispatched_rows(tasks, free)),
        rows_advance(tasks, dispatched_rows(tasks, free)),
    decreases free,
{
    lemma_pending_count_positive(tasks);
    lemma_pending_count_positive(dispatched_rows(tasks, free));
    if free == 0 || !has_pending(tasks) {
    } else {
        lemma_claim_counts(tasks);
        law_dispatch_counts(claimed(tasks), (free - 1) as nat);
        let mid = claimed(tasks);
        let after = dispatched_rows(tasks, free);
        assert forall|i: int| 0 <= i < tasks.len() implies (#[trigger] after[i]) == tasks[i] || (
        tasks[i].status == DownloadStatus::Pending && after[i] == tasks[i].with_only_status(
            DownloadStatus::Downloading,
        )) by {
            assert(mid[i] == tasks[i] || (tasks[i].status == DownloadStatus::Pending && mid[i]
                == tasks[i].with_only_status(DownloadStatus::Downloading)));
            assert(after[i] == mid[i] || (mid[i].status == DownloadStatus::Pending && after[i]
                == mid[i].with_only_status(DownloadStatus::Downloading)));
        }
    }
}

/// Rows `i` and `j` both wait, and `i` is the older: it was created
/// earlier, or at the same time and inserted earlier.
pub open spec fn waits_before(tasks: Seq<TaskView>, i: int, j: int) -> bool {
    &&& 0 <= i < tasks.len()
    &&& 0 <= j < tasks.len()
    &&& tasks[i].status == DownloadStatus::Pending
    &&& tasks[j].status == DownloadStatus::Pending
    &&& (tasks[i].created_at < tasks[j].created_at || (tasks[i].created_at == tasks[j].created_at
        && i < j))
}

/// The dispatch loop serves first who came first: it starts no waiting
/// task while an older one is left waiting.
pub proof fn law_dispatch_is_first_in_first_out(tasks: Seq<TaskView>, free: nat, i: int, j: int)
    requires
        waits_before(tasks, i, j),
        dispatched_rows(tasks, free)[j].status == DownloadStatus::Downloading,
    ensures
        dispatched_rows(tasks, free)[i].status == DownloadStatus::Downloading,
    decreases free,
{
    if free == 0 || !has_pending(tasks) {
    } else {
        lemma_claim_counts(tasks);
        let k = oldest_pending(tasks)->0;
        let mid = claimed(tasks);
        let after = dispatched_rows(tasks, free);
        law_dispatch_counts(mid, (free - 1) as nat);
        if i == k {
            assert(mid[i].status == DownloadStatus::Downloading);
            assert(after[i] == mid[i] || (mid[i].status == DownloadStatus::Pending && after[i]
                == mid[i].with_only_status(DownloadStatus::Downloading)));
        } else {
            assert(j != k);
            assert(mid[i] == tasks[i]);
            assert(mid[j] == tasks[j]);
            law_dispatch_is_first_in_first_out(mid, (free - 1) as nat, i, j);
        }
    }
}

/// Row `id` is there and waits.
pub open spec fn is_pending(tasks: Seq<TaskView>, id: u64) -> bool {
    exists|i: int|
        0 <= i < tasks.len() && tasks[i].id == id && tasks[i].status == DownloadStatus::Pending
}

/// Claims made one after the other never hand out a row twice: `c` claims
/// on a table give the identifiers of as many different rows as waited,
/// up to `c`, and each of these rows did wait.
pub proof fn law_claims_are_distinct(tasks: Seq<TaskView>, c: nat)
    requires
        distinct_ids(tasks),
    ensures
        dispatched_ids(tasks, c).len() == least(c as int, pending_count(tasks) as int),
        forall|a: int|
            0 <= a < dispatched_ids(tasks, c).len() ==> is_pending(
                tasks,
                #[trigger] dispatched_ids(tasks, c)[a],
            ),
        forall|a: int, b: int|
            0 <= a < b < dispatched_ids(tasks, c).len() ==> dispatched_ids(tasks, c)[a]
                != dispatched_ids(tasks, c)[b],
    decreases c,
{
    law_dispatch_counts(tasks, c);
    if c == 0 || !has_pending(tasks) {
    } else {
        lemma_claim_counts(tasks);
        let i = oldest_pending(tasks)->0;
        let mid = claimed(tasks);
        assert(distinct_ids(mid)) by {
            assert forall|x: int, y: int|
                0 <= x < mid.len() && 0 <= y < mid.len() && mid[x].id == mid[y].id implies x
                == y by {
                assert(mid[x].id == tasks[x].id);
                assert(mid[y].id == tasks[y].id);
            }
        }
        law_claims_are_distinct(mid, (c - 1) as nat);
        let rest = dispatched_ids(mid, (c - 1) as nat);
        let ids = dispatched_ids(tasks, c);
        assert(ids =~= seq![tasks[i].id] + rest);
        assert forall|a: int| 0 <= a < rest.len() implies is_pending(tasks, #[trigger] rest[a])
            && rest[a] != tasks[i].id by {
            assert(is_pending(mid, rest[a]));
            let j = choose|j: int|
                0 <= j < mid.len() && mid[j].id == rest[a] && mid[j].status
                    == DownloadStatus::Pending;
            assert(j != i);
            assert(mid[j] == tasks[j]);
        }
        assert forall|a: int| 0 <= a < ids.len() implies is_pending(tasks, #[trigger] ids[a]) by {
            if a == 0 {
                assert(tasks[i].id == ids[0]);
            } else {
                assert(ids[a] == rest[a - 1]);
            }
        }
        assert forall|a: int, b: int| 0 <= a < b < ids.len() implies ids[a] != ids[b] by {
            assert(ids[b] == rest[b - 1]);
            if a > 0 {
                assert(ids[a] == rest[a - 1]);
            }
        }
    }
}

/// The table and the manager's count after the rows of `rows` were put into
/// an empty queue one after the other, under a ceiling of `ceiling`.
pub open spec fn enqueued_all(rows: Seq<TaskView>, ceiling: u32) -> (Seq<TaskView>, u32)
    decreases rows.len(),
{
    if rows.len() == 0 {
        (Seq::empty(), 0)
    } else {
        let (tasks, count) = enqueued_all(rows.drop_last(), ceiling);
        if count < ceiling {
            (tasks.push(placed(rows.last(), count, ceiling)), (count + 1) as u32)
        } else {
            (tasks.push(placed(rows.last(), count, ceiling)), count)
        }
    }
}

/// Of `n` tasks put into an empty queue under a ceiling of `m`, the first
/// `m` run at once and the others wait: where `m < n`, exactly `m` run and
/// `n - m` wait. The manager's count is the number of rows that run.
pub proof fn law_enqueue_fills_slots(rows: Seq<TaskView>, ceiling: u32)
    requires
        forall|i: int| 0 <= i < rows.len() ==> rows[i].status == DownloadStatus::Pending,
    ensures
        enqueued_all(rows, ceiling).0.len() == rows.len(),
        enqueued_all(rows, ceiling).1 == least(rows.len() as int, ceiling as int),
        downloading_count(enqueued_all(rows, ceiling).0) == least(
            rows.len() as int,
            ceiling as int,
        ),
        pending_count(enqueued_all(rows, ceiling).0) == rows.len() - least(
            rows.len() as int,
            ceiling as int,
        ),
        forall|i: int|
            0 <= i < rows.len() ==> (#[trigger] enqueued_all(rows, ceiling).0[i]).status == (if i
                < ceiling {
                DownloadStatus::Downloading
            } else {
                DownloadStatus::Pending
            }),
    decreases rows.len(),
{
    let pending = |t: TaskView| t.status == DownloadStatus::Pending;
    let running = |t: TaskView| t.status == DownloadStatus::Downloading;
    if rows.len() == 0 {
        assert(Seq::<TaskView>::empty().filter(pending).len() == 0) by {
            reveal(Seq::filter);
        }
        assert(Seq::<TaskView>::empty().filter(running).len() == 0) by {
            reveal(Seq::filter);
        }
    } else {
        law_enqueue_fills_slots(rows.drop_last(), ceiling);
        let (tasks, count) = enqueued_all(rows.drop_last(), ceiling);
        let row = placed(rows.last(), count, ceiling);
        Seq::lemma_filter_push(tasks, row, pending);
        Seq::lemma_filter_push(tasks, row, running);
        let all = enqueued_all(rows, ceiling).0;
        assert forall|i: int| 0 <= i < rows.len() implies (#[trigger] all[i]).status == (if i
            < ceiling {
            DownloadStatus::Downloading
        } else {
            DownloadStatus::Pending
        }) by {
            if i < rows.len() - 1 {
                assert(all[i] == tasks[i]);
            }
        }
    }
}

/// The end of a run changes the row of its task and no other: a row
/// marked as running takes the end state, and one row less runs.
pub proof fn lemma_ended_counts(
    tasks: Seq<TaskView>,
    id: u64,
    status: DownloadStatus,
    error: Option<Seq<char>>,
)
    requires
        distinct_ids(tasks),
        is_running(tasks, id),
        status.is_terminal(),
    ensures
        rows_advance(tasks, ended(tasks, id, status, error)),
        downloading_count(ended(tasks, id, status, error)) == downloading_count(tasks) - 1,
        pending_count(ended(tasks, id, status, error)) == pending_count(tasks),
{
    let i = choose|i: int|
        0 <= i < tasks.len() && tasks[i].id == id && tasks[i].status == DownloadStatus::Downloading;
    let after = ended(tasks, id, status, error);
    let row = tasks[i].with_status(status, error);
    assert(after =~= tasks.update(i, row));
    lemma_filter_len_update(tasks, i, row, |t: TaskView| t.status == DownloadStatus::Pending);
    lemma_filter_len_update(tasks, i, row, |t: TaskView| t.status == DownloadStatus::Downloading);
}

/// When a running task ends while the manager is full and its count is the
/// number of rows that run, the oldest waiting task takes its place: as
/// many rows run as before and one less waits. With no row waiting, one
/// row less runs. Either way no row waits while a slot is free.
pub proof fn law_finish_starts_next(
    tasks: Seq<TaskView>,
    count: u32,
    ceiling: u32,
    id: u64,
    status: DownloadStatus,
    error: Option<Seq<char>>,
)
    requires
        distinct_ids(tasks),
        is_running(tasks, id),
        status.is_terminal(),
        count == downloading_count(tasks),
        count == ceiling,
    ensures
        ({
            let after = dispatched_rows(
                ended(tasks, id, status, error),
                free_slots(released(count), ceiling),
            );
            &&& has_pending(tasks) ==> downloading_count(after) == count && pending_count(after)
                == pending_count(tasks) - 1
            &&& !has_pending(tasks) ==> downloading_count(after) == count - 1 && pending_count(
                after,
            ) == 0
            &&& downloading_count(after) == released(count) + dispatched_ids(
                ended(tasks, id, status, error),
                free_slots(released(count), ceiling),
            ).len()
        }),
{
    lemma_ended_counts(tasks, id, status, error);
    let mid = ended(tasks, id, status, error);
    lemma_pending_count_positive(tasks);
    lemma_pending_count_positive(mid);
    let i = choose|i: int|
        0 <= i < tasks.len() && tasks[i].id == id && tasks[i].status == DownloadStatus::Downloading;
    Seq::lemma_filter_contains(tasks, |t: TaskView| t.status == DownloadStatus::Downloading, i);
    law_dispatch_counts(mid, free_slots(released(count), ceiling));
}

/// The count of taken slots is the number of rows marked as running.
pub open spec fn balanced(tasks: Seq<TaskView>, count: u32) -> bool {
    count == downloading_count(tasks)
}

/// No slot leaks when a task is put into the queue: if the count of taken
/// slots was the number of running rows before, it is so after.
pub proof fn law_enqueue_keeps_balance(
    tasks: Seq<TaskView>,
    row: TaskView,
    count: u32,
    ceiling: u32,
)
    requires
        balanced(tasks, count),
        row.status == DownloadStatus::Pending,
    ensures
        balanced(tasks.push(placed(row, count, ceiling)), acquired(count, ceiling)),
        pending_count(tasks.push(placed(row, count, ceiling))) == pending_count(tasks) + (if count
            < ceiling {
            0int
        } else {
            1int
        }),
{
    Seq::lemma_filter_len(tasks, |t: TaskView| t.status == DownloadStatus::Downloading);
    Seq::lemma_filter_push(
        tasks,
        placed(row, count, ceiling),
        |t: TaskView| t.status == DownloadStatus::Downloading,
    );
    Seq::lemma_filter_push(
        tasks,
        placed(row, count, ceiling),
        |t: TaskView| t.status == DownloadStatus::Pending,
    );
}

/// No slot leaks in the dispatch loop: it takes one slot for each row
/// that it marks as running.
pub proof fn law_dispatch_keeps_balance(tasks: Seq<TaskView>, count: u32, ceiling: u32)
    requires
        balanced(tasks, count),
    ensures
        downloading_count(dispatched_rows(tasks, free_slots(count, ceiling))) == count
            + dispatched_ids(tasks, free_slots(count, ceiling)).len(),
        count <= ceiling ==> count + dispatched_ids(tasks, free_slots(count, ceiling)).len()
            <= ceiling,
{
    law_dispatch_counts(tasks, free_slots(count, ceiling));
}

/// No slot leaks when a run ends: the slot of the task that ended is given
/// back, and the dispatch loop takes one for each task that it starts. So
/// the count of taken slots is again the number of rows marked as running.
pub proof fn law_run_end_keeps_balance(
    tasks: Seq<TaskView>,
    count: u32,
    ceiling: u32,
    id: u64,
    status: DownloadStatus,
    error: Option<Seq<char>>,
)
    requires
        distinct_ids(tasks),
        is_running(tasks, id),
        status.is_terminal(),
        balanced(tasks, count),
    ensures
        ({
            let left = ended(tasks, id, status, error);
            let free = free_slots(released(count), ceiling);
            downloading_count(dispatched_rows(left, free)) == released(count) + dispatched_ids(
                left,
                free,
            ).len()
        }),
{
    lemma_ended_counts(tasks, id, status, error);
    let left = ended(tasks, id, status, error);
    law_dispatch_counts(left, free_slots(released(count), ceiling));
}

/// No slot leaks when a running task is cancelled: between the request
/// and the end of the run the slot is still taken though the row is not
/// marked as running any more; once the run has ended, the count of taken
/// slots is again the number of rows marked as running.
pub proof fn law_cancel_keeps_balance(tasks: Seq<TaskView>, count: u32, ceiling: u32, id: u64)
    requires
        distinct_ids(tasks),
        is_running(tasks, id),
        balanced(tasks, count),
    ensures
        downloading_count(cancel_active(tasks, id)) == count - 1,
        ({
            let left = ended(cancel_active(tasks, id), id, DownloadStatus::Cancelled, None);
            let free = free_slots(released(count), ceiling);
            &&& left == cancel_active(tasks, id)
            &&& downloading_count(dispatched_rows(left, free)) == released(count) + dispatched_ids(
                left,
                free,
            ).len()
        }),
{
    let i = choose|i: int|
        0 <= i < tasks.len() && tasks[i].id == id && tasks[i].status == DownloadStatus::Downloading;
    let cancelled = cancel_active(tasks, id);
    let row = tasks[i].with_only_status(DownloadStatus::Cancelled);
    assert(cancelled =~= tasks.update(i, row));
    lemma_filter_len_update(tasks, i, row, |t: TaskView| t.status == DownloadStatus::Downloading);
    law_end_states_exclude_each_other(tasks, id, 0, DownloadStatus::Cancelled, None);
    law_dispatch_counts(cancelled, free_slots(released(count), ceiling));
}

/// A cancel request for a task that has ended changes nothing: the
/// request is refused and the table is as it was.
pub proof fn law_cancel_after_end_is_noop(tasks: Seq<TaskView>, id: u64)
    requires
        distinct_ids(tasks),
        exists|i: int| 0 <= i < tasks.len() && tasks[i].id == id && tasks[i].status.is_terminal(),
    ensures
        !is_cancellable(tasks, id),
        cancel_active(tasks, id) == tasks,
{
    assert(cancel_active(tasks, id) =~= tasks);
}

/// A task ends once. After a running task was cancelled, the end of its
/// run, be it success or failure, leaves the row cancelled; and after its
/// run has ended, a cancel request leaves the row as the run left it.
pub proof fn law_end_states_exclude_each_other(
    tasks: Seq<TaskView>,
    id: u64,
    completed_at: i64,
    status: DownloadStatus,
    error: Option<Seq<char>>,
)
    requires
        distinct_ids(tasks),
        is_running(tasks, id),
        status.is_terminal(),
    ensures
        succeeded(cancel_active(tasks, id), id, completed_at) == cancel_active(tasks, id),
        ended(cancel_active(tasks, id), id, status, error) == cancel_active(tasks, id),
        cancel_active(succeeded(tasks, id, completed_at), id) == succeeded(
            tasks,
            id,
            completed_at,
        ),
        cancel_active(ended(tasks, id, status, error), id) == ended(tasks, id, status, error),
        exists|i: int|
            0 <= i < tasks.len() && tasks[i].id == id && cancel_active(tasks, id)[i].status
                == DownloadStatus::Cancelled && succeeded(tasks, id, completed_at)[i].status
                == DownloadStatus::Completed && ended(tasks, id, status, error)[i].status == status,
{
    let i = choose|i: int|
        0 <= i < tasks.len() && tasks[i].id == id && tasks[i].status == DownloadStatus::Downloading;
    let cancelled = cancel_active(tasks, id);
    assert(!is_running(cancelled, id)) by {
        if is_running(cancelled, id) {
            let j = choose|j: int|
                0 <= j < cancelled.len() && cancelled[j].id == id && cancelled[j].status
                    == DownloadStatus::Downloading;
            assert(tasks[j].id == id);
        }
    }
    assert(cancel_active(succeeded(tasks, id, completed_at), id) =~= succeeded(
        tasks,
        id,
        completed_at,
    ));
    assert(cancel_active(ended(tasks, id, status, error), id) =~= ended(
        tasks,
        id,
        status,
        error,
    ));
    assert(cancel_active(tasks, id)[i].status == DownloadStatus::Cancelled);
}

/// Row `i` is completed in `after` and was not in `before`.
pub open spec fn newly_completed(before: Seq<TaskView>, after: Seq<TaskView>, i: int) -> bool {
    0 <= i < before.len() && i < after.len() && after[i].status == DownloadStatus::Completed
        && before[i].status != DownloadStatus::Completed
}

/// A download is completed and recorded in one step or not at all: the
/// success of a run adds one record to the history exactly when it
/// completes a row, and it completes no more than the row of its task.
pub proof fn law_completion_is_recorded(
    tasks: Seq<TaskView>,
    history: Seq<HistoryView>,
    next_history_id: u64,
    count: u32,
    ceiling: u32,
    after: (Seq<TaskView>, Seq<HistoryView>, u64, u32),
    task: TaskView,
    file_path: Seq<char>,
    file_size: u64,
    completed_at: i64,
    start: Seq<u64>,
)
    requires
        distinct_ids(tasks),
        completes_at(
            (tasks, history, next_history_id, count),
            after,
            ceiling,
            task,
            file_path,
            file_size,
            completed_at,
            start,
        ),
    ensures
        (exists|i: int| newly_completed(tasks, after.0, i)) <==> after.1.len() == history.len()
            + 1,
        after.1.len() == history.len() || after.1.len() == history.len() + 1,
        forall|i: int| newly_completed(tasks, after.0, i) ==> tasks[i].id == task.id,
        after.1.len() == history.len() + 1 ==> after.1.last() == history_of(
            task,
            file_path,
            file_size,
            completed_at,
        ).with_id(next_history_id),
{
    let can_record = next_history_id <= MAX_ROW_ID;
    let mid = succeeded_or_unrecorded(tasks, task.id, completed_at, can_record);
    let free = free_slots(released(count), ceiling);
    law_dispatch_counts(mid, free);
    assert(after.0 == dispatched_rows(mid, free));
    if is_running(tasks, task.id) && can_record {
        let i = choose|i: int|
            0 <= i < tasks.len() && tasks[i].id == task.id && tasks[i].status
                == DownloadStatus::Downloading;
        assert(mid[i].status == DownloadStatus::Completed);
        assert(after.0[i] == mid[i]);
        assert(newly_completed(tasks, after.0, i));
    }
    assert forall|i: int| newly_completed(tasks, after.0, i) implies tasks[i].id == task.id
        && is_running(tasks, task.id) && can_record by {
        assert(after.0[i] == mid[i] || (mid[i].status == DownloadStatus::Pending && after.0[i]
            == mid[i].with_only_status(DownloadStatus::Downloading)));
        assert(mid[i].status == DownloadStatus::Completed);
    }
}

/// Cancelling every waiting or running task moves each row only from
/// waiting or running to cancelled.
pub proof fn law_cancel_all_follows_edges(tasks: Seq<TaskView>)
    ensures
        rows_advance(tasks, cancel_all_rows(tasks)),
{
}

/// After a restart every row that was left marked as running is marked
/// as failed, with the text that tells of the restart, and every other
/// row is as it was; no row is marked as running then. Once the dispatch
/// loop has run, the rows marked as running are those that it started, so
/// none of them is without a run.
pub proof fn law_recovery_leaves_none_stuck(tasks: Seq<TaskView>, free: nat)
    ensures
        rows_advance(tasks, fail_stale(tasks)),
        forall|i: int|
            0 <= i < tasks.len() ==> (#[trigger] fail_stale(tasks)[i]) == (if tasks[i].status
                == DownloadStatus::Downloading {
                tasks[i].with_status(DownloadStatus::Failed, Some(stale_message()))
            } else {
                tasks[i]
            }),
        downloading_count(fail_stale(tasks)) == 0,
        pending_count(fail_stale(tasks)) == pending_count(tasks),
        downloading_count(dispatched_rows(fail_stale(tasks), free)) == dispatched_ids(
            fail_stale(tasks),
            free,
        ).len(),
{
    lemma_none_downloading(tasks);
    law_dispatch_counts(fail_stale(tasks), free);
    lemma_same_pending(tasks, fail_stale(tasks));
}

/// Two tables whose rows wait at the same places have as many waiting rows.
proof fn lemma_same_pending(a: Seq<TaskView>, b: Seq<TaskView>)
    requires
        a.len() == b.len(),
        forall|i: int|
            0 <= i < a.len() ==> ((#[trigger] a[i]).status == DownloadStatus::Pending) == (
            b[i].status == DownloadStatus::Pending),
    ensures
        pending_count(a) == pending_count(b),
    decreases a.len(),
{
    let pred = |t: TaskView| t.status == DownloadStatus::Pending;
    if a.len() == 0 {
        assert(a =~= b);
    } else {
        lemma_same_pending(a.drop_last(), b.drop_last());
        assert(a =~= a.drop_last().push(a.last()));
        assert(b =~= b.drop_last().push(b.last()));
        Seq::lemma_filter_push(a.drop_last(), a.last(), pred);
        Seq::lemma_filter_push(b.drop_last(), b.last(), pred);
        assert(a[a.len() - 1] == a.last());
    }
}

/// A retry makes no new row: the task keeps its place and its identifier,
/// and all other rows are as they were. The task goes from failed or
/// cancelled back to waiting, and from there, if a slot is free, on to
/// running, as any waiting task does.
pub proof fn law_retry_reuses_row(tasks: Seq<TaskView>, id: u64)
    requires
        distinct_ids(tasks),
        can_retry(tasks, id),
    ensures
        task_ids(set_status(tasks, id, DownloadStatus::Pending, None)) == task_ids(tasks),
        rows_advance(tasks, set_status(tasks, id, DownloadStatus::Pending, None)),
        rows_advance(
            set_status(tasks, id, DownloadStatus::Pending, None),
            set_status(tasks, id, DownloadStatus::Downloading, None),
        ),
        set_status(
            set_status(tasks, id, DownloadStatus::Pending, None),
            id,
            DownloadStatus::Downloading,
            None,
        ) == set_status(tasks, id, DownloadStatus::Downloading, None),
        is_pending(set_status(tasks, id, DownloadStatus::Pending, None), id),
        is_running(set_status(tasks, id, DownloadStatus::Downloading, None), id),
        pending_count(set_status(tasks, id, DownloadStatus::Pending, None)) == pending_count(tasks)
            + 1,
{
    let i = choose|i: int|
        0 <= i < tasks.len() && tasks[i].id == id && crate::scheduler::retryable(tasks[i].status);
    let waiting = set_status(tasks, id, DownloadStatus::Pending, None);
    let running = set_status(tasks, id, DownloadStatus::Downloading, None);
    assert(task_ids(waiting) =~= task_ids(tasks));
    assert(set_status(waiting, id, DownloadStatus::Downloading, None) =~= running);
    assert(waiting[i].status == DownloadStatus::Pending);
    assert(running[i].status == DownloadStatus::Downloading);
    assert(waiting =~= tasks.update(i, tasks[i].with_status(DownloadStatus::Pending, None)));
    lemma_filter_len_update(
        tasks,
        i,
        tasks[i].with_status(DownloadStatus::Pending, None),
        |t: TaskView| t.status == DownloadStatus::Pending,
    );
}

/// A cancel request moves no row but the one it names, and that one only
/// from waiting or running to cancelled.
pub proof fn law_cancel_follows_edges(tasks: Seq<TaskView>, id: u64)
    ensures
        rows_advance(tasks, cancel_active(tasks, id)),
{
}

/// The success of a run moves no row but its own, and that one only from
/// running to completed.
pub proof fn law_success_follows_edges(tasks: Seq<TaskView>, id: u64, completed_at: i64)
    requires
        distinct_ids(tasks),
    ensures
        rows_advance(tasks, succeeded(tasks, id, completed_at)),
{
    if is_running(tasks, id) {
        let i = choose|i: int|
            0 <= i < tasks.len() && tasks[i].id == id && tasks[i].status
                == DownloadStatus::Downloading;
        let after = succeeded(tasks, id, completed_at);
        assert forall|k: int| 0 <= k < tasks.len() implies (#[trigger] after[k]).id == tasks[k].id
            && (after[k].status == tasks[k].status || is_edge(
            tasks[k].status,
            after[k].status,
        )) by {
            if tasks[k].id == id {
                assert(k == i);
            }
        }
    }
}

} // verus!
