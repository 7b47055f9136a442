//! The download manager: how many downloads run, how many may run, and which
//! running tasks can be told to stop.

use std::collections::HashMap;
use tokio::sync::watch::Receiver;
use tokio::sync::watch::Sender;
use vstd::prelude::*;

verus! {

/// The sending half of tokio's watch channel, carried as an opaque value.
#[verifier::external_type_specification]
#[verifier::external_body]
#[verifier::reject_recursive_types(T)]
pub struct ExSender<T>(Sender<T>);

/// The receiving half of tokio's watch channel, carried as an opaque value.
#[verifier::external_type_specification]
#[verifier::external_body]
#[verifier::reject_recursive_types(T)]
pub struct ExReceiver<T>(Receiver<T>);

/// `tokio::sync::watch::channel`: a fresh pair of sender and receiver
/// that holds `initial`. Nothing is claimed of the pair.
#[verifier::external_body]
fn watch_channel(initial: bool) -> (pair: (Sender<bool>, Receiver<bool>)) {
    tokio::sync::watch::channel(initial)
}

/// `tokio::sync::watch::Sender::send`: puts `value` into the channel and
/// wakes the receivers. It fails when no receiver is left, which is
/// ignored. Nothing is claimed of it.
#[verifier::external_body]
fn watch_send(sender: &Sender<bool>, value: bool) {
    let _ = sender.send(value);
}

/// A fresh stop signal, not raised.
fn cancel_channel() -> (pair: (Sender<bool>, Receiver<bool>)) {
    watch_channel(false)
}

/// Raises a stop signal.
fn raise(sender: &Sender<bool>) {
    watch_send(sender, true);
}

/// The smallest number of downloads that may be allowed to run at once.
pub const MIN_CONCURRENT: u32 = 1;

/// The largest number of downloads that may be allowed to run at once.
pub const MAX_CONCURRENT: u32 = 20;

/// `val` brought into the allowed range of the ceiling.
pub open spec fn clamp_ceiling(val: u32) -> u32 {
    if val < MIN_CONCURRENT {
        MIN_CONCURRENT
    } else if val > MAX_CONCURRENT {
        MAX_CONCURRENT
    } else {
        val
    }
}

fn clamp(val: u32) -> (r: u32)
    ensures
        r == clamp_ceiling(val),
{
    if val < MIN_CONCURRENT {
        MIN_CONCURRENT
    } else if val > MAX_CONCURRENT {
        MAX_CONCURRENT
    } else {
        val
    }
}

/// The manager: a count of running downloads, a ceiling, and the stop
/// signals of the tasks that registered one.
pub struct DownloadManager {
    active_count: u32,
    max_concurrent: u32,
    cancel_senders: HashMap<u64, Sender<bool>>,
}

/// Whether a slot is free.
pub open spec fn has_free_slot(count: u32, ceiling: u32) -> bool {
    count < ceiling
}

/// The count after an attempt to take a slot: one more if a slot was
/// free, else as it was.
pub open spec fn acquired(count: u32, ceiling: u32) -> u32 {
    if has_free_slot(count, ceiling) {
        (count + 1) as u32
    } else {
        count
    }
}

/// The count after one slot is given back: one less, never below zero.
pub open spec fn released(count: u32) -> u32 {
    if count == 0 {
        0
    } else {
        (count - 1) as u32
    }
}

impl DownloadManager {
    /// The ceiling is in range.
    pub closed spec fn wf(&self) -> bool {
        MIN_CONCURRENT <= self.max_concurrent <= MAX_CONCURRENT
    }

    /// How many slots are taken.
    pub closed spec fn count(&self) -> u32 {
        self.active_count
    }

    /// How many slots there are.
    pub closed spec fn ceiling(&self) -> u32 {
        self.max_concurrent
    }

    /// The tasks that hold a stop signal.
    pub closed spec fn registered(&self) -> Set<u64> {
        self.cancel_senders@.dom()
    }

    /// The ceiling of a well-formed manager is in range.
    pub proof fn lemma_ceiling_in_range(&self)
        requires
            self.wf(),
        ensures
            MIN_CONCURRENT <= self.ceiling() <= MAX_CONCURRENT,
    {
    }

    /// A manager with no slot taken, whose ceiling is `max_concurrent`,
    /// brought into range.
    pub fn new(max_concurrent: u32) -> (m: Self)
        ensures
            m.wf(),
            m.count() == 0,
            m.ceiling() == clamp_ceiling(max_concurrent),
            m.registered() == Set::<u64>::empty(),
    {
        let m = DownloadManager {
            active_count: 0,
            max_concurrent: clamp(max_concurrent),
            cancel_senders: HashMap::new(),
        };
        assert(m.registered() =~= Set::<u64>::empty());
        m
    }

    /// How many slots are taken.
    pub fn active_count(&self) -> (n: u32)
        ensures
            n == self.count(),
    {
        self.active_count
    }

    /// How many slots there are.
    pub fn max_concurrent(&self) -> (n: u32)
        ensures
            n == self.ceiling(),
    {
        self.max_concurrent
    }

    /// Sets the ceiling to `val`, brought into range. Slots already taken stay taken.
    pub fn set_max_concurrent(&mut self, val: u32)
        requires
            old(self).wf(),
        ensures
            final(self).wf(),
            final(self).ceiling() == clamp_ceiling(val),
            final(self).count() == old(self).count(),
            final(self).registered() == old(self).registered(),
    {
        self.max_concurrent = clamp(val);
    }

    /// Takes a slot if one is free, and says whether it did.
    pub fn try_acquire(&mut self) -> (taken: bool)
        requires
            old(self).wf(),
        ensures
            final(self).wf(),
            taken == has_free_slot(old(self).count(), old(self).ceiling()),
            final(self).count() == acquired(old(self).count(), old(self).ceiling()),
            final(self).ceiling() == old(self).ceiling(),
            final(self).registered() == old(self).registered(),
    {
        if self.active_count >= self.max_concurrent {
            return false;
        }
        self.active_count = self.active_count + 1;
        true
    }

    /// Gives a slot back. With no slot taken, nothing changes.
    pub fn release(&mut self)
        requires
            old(self).wf(),
        ensures
            final(self).wf(),
            final(self).count() == released(old(self).count()),
            final(self).ceiling() == old(self).ceiling(),
            final(self).registered() == old(self).registered(),
    {
        if self.active_count > 0 {
            self.active_count = self.active_count - 1;
        }
    }

    /// Overwrites the count of taken slots with `count`.
    pub fn sync_active_count(&mut self, count: u32)
        requires
            old(self).wf(),
        ensures
            final(self).wf(),
            final(self).count() == count,
            final(self).ceiling() == old(self).ceiling(),
            final(self).registered() == old(self).registered(),
    {
        self.active_count = count;
    }

    /// Gives `task_id` a fresh stop signal, in place of any it had, and hands
    /// out the receiving end.
    pub fn register_cancel(&mut self, task_id: u64) -> (receiver: Receiver<bool>)
        requires
            old(self).wf(),
        ensures
            final(self).wf(),
            final(self).registered() == old(self).registered().insert(task_id),
            final(self).count() == old(self).count(),
            final(self).ceiling() == old(self).ceiling(),
    {
        broadcast use vstd::std_specs::hash::group_hash_axioms;

        let (sender, receiver) = cancel_channel();
        let _ = self.cancel_senders.insert(task_id, sender);
        assert(self.registered() =~= old(self).registered().insert(task_id));
        receiver
    }

    /// Raises the stop signal of `task_id` and forgets it. A task without a
    /// signal, such as one that has finished, is left alone.
    pub fn send_cancel(&mut self, task_id: u64)
        requires
            old(self).wf(),
        ensures
            final(self).wf(),
            final(self).registered() == old(self).registered().remove(task_id),
            final(self).count() == old(self).count(),
            final(self).ceiling() == old(self).ceiling(),
    {
        broadcast use vstd::std_specs::hash::group_hash_axioms;

        match self.cancel_senders.remove(&task_id) {
            Some(sender) => {
                raise(&sender);
            },
            None => {},
        }
        assert(self.registered() =~= old(self).registered().remove(task_id));
    }

    /// Forgets the stop signal of `task_id` without raising it.
    pub fn unregister_cancel(&mut self, task_id: u64)
        requires
            old(self).wf(),
        ensures
            final(self).wf(),
            final(self).registered() == old(self).registered().remove(task_id),
            final(self).count() == old(self).count(),
            final(self).ceiling() == old(self).ceiling(),
    {
        broadcast use vstd::std_specs::hash::group_hash_axioms;

        let _ = self.cancel_senders.remove(&task_id);
        assert(self.registered() =~= old(self).registered().remove(task_id));
    }

    /// Whether `task_id` holds a stop signal.
    pub fn is_registered(&self, task_id: u64) -> (b: bool)
        ensures
            b == self.registered().contains(task_id),
    {
        broadcast use vstd::std_specs::hash::group_hash_axioms;

        self.cancel_senders.contains_key(&task_id)
    }

    /// Raises every stop signal and forgets them all. It does not wait for
    /// the tasks to stop.
    pub fn cancel_all(&mut self)
        requires
            old(self).wf(),
        ensures
            final(self).wf(),
            final(self).registered() == Set::<u64>::empty(),
            final(self).count() == old(self).count(),
            final(self).ceiling() == old(self).ceiling(),
    {
        for sender in self.cancel_senders.values() {
            raise(sender);
        }
        self.cancel_senders.clear();
        assert(self.registered() =~= Set::<u64>::empty());
    }
}

/// Taking and giving back slots never brings the count above the
/// ceiling: a count that is within the ceiling stays within it, and one
/// that is above it, after the ceiling was lowered, does not grow.
pub proof fn law_slots_stay_within_ceiling(count: u32, ceiling: u32)
    ensures
        count <= ceiling ==> acquired(count, ceiling) <= ceiling && released(count) <= ceiling,
        count > ceiling ==> acquired(count, ceiling) == count && released(count) < count,
        released(acquired(count, ceiling)) <= count,
        has_free_slot(count, ceiling) ==> released(acquired(count, ceiling)) == count,
{
}

/// The ceiling is never zero and never above the largest allowed.
pub proof fn law_ceiling_is_clamped(val: u32)
    ensures
        MIN_CONCURRENT <= clamp_ceiling(val) <= MAX_CONCURRENT,
        MIN_CONCURRENT <= val <= MAX_CONCURRENT ==> clamp_ceiling(val) == val,
{
}

} // verus!
