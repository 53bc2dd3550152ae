//! The debounce scheduler: for each window at most one pending task, and
//! every new one takes the place of the one before it.
//!
//! The scheduler keeps no timers. It numbers the tasks, says which task a
//! new one supersedes, and decides, when a timer has run out, whether its
//! task is still the pending one of its window and so may run.

use vstd::prelude::*;

use crate::label_map::{distinct_keys, map_of, Entry, LabelMap};

verus! {

/// The delay before the size of a resized window is saved.
pub const SIZE_SAVE_DELAY_MS: u64 = 500;

/// The pending task of each window, and the number of the next task.
pub struct DebounceScheduler {
    pending: LabelMap<u64>,
    next_task: u64,
}

/// What a scheduler holds.
pub struct SchedulerView {
    pub pending: Map<Seq<char>, u64>,
    pub next_task: int,
}

/// What the timers are to do after a call of `schedule`: cancel the task
/// that was superseded, if there was one, and start `task` with `delay_ms`.
#[derive(Clone, Copy, Debug, PartialEq, Eq, Structural)]
pub struct Scheduled {
    pub task: u64,
    pub delay_ms: u64,
    pub cancelled: Option<u64>,
}

impl SchedulerView {
    /// Every pending task was numbered before the next one.
    pub open spec fn wf(self) -> bool {
        &&& 0 <= self.next_task <= u64::MAX
        &&& forall|k: Seq<char>| #[trigger]
            self.pending.contains_key(k) ==> self.pending[k] < self.next_task
    }

    /// The task of `key` that a new one supersedes.
    pub open spec fn superseded(self, key: Seq<char>) -> Option<u64> {
        if self.pending.contains_key(key) {
            Some(self.pending[key])
        } else {
            None
        }
    }

    /// The scheduler after a task was scheduled for `key`: the next number
    /// is pending for `key`, in place of whatever was.
    pub open spec fn schedule(self, key: Seq<char>) -> SchedulerView {
        SchedulerView {
            pending: self.pending.insert(key, self.next_task as u64),
            next_task: self.next_task + 1,
        }
    }

    /// Whether another task can be numbered.
    pub open spec fn has_room(self) -> bool {
        self.next_task < u64::MAX
    }

    /// The scheduler after a call of `schedule` for `key`: a task is
    /// scheduled while there is a number left for it; once the numbers are
    /// used up nothing changes.
    pub open spec fn try_schedule(self, key: Seq<char>) -> SchedulerView {
        if self.has_room() {
            self.schedule(key)
        } else {
            self
        }
    }

    /// The number of the last task of a burst of `n` calls, where the
    /// first of them found a number left.
    pub open spec fn last_of_burst(self, n: nat) -> int {
        if self.next_task + n <= u64::MAX {
            self.next_task + n - 1
        } else {
            u64::MAX - 1
        }
    }

    /// Whether `task` may run when its timer has run out: it is still the
    /// pending task of `key`.
    pub open spec fn fires(self, key: Seq<char>, task: u64) -> bool {
        self.pending.contains_key(key) && self.pending[key] == task
    }

    /// The scheduler after the timer of `task` has run out: a task that ran
    /// is no longer pending; one that was superseded leaves no trace.
    pub open spec fn fire(self, key: Seq<char>, task: u64) -> SchedulerView {
        if self.fires(key, task) {
            SchedulerView { pending: self.pending.remove(key), ..self }
        } else {
            self
        }
    }

    /// The scheduler with nothing pending.
    pub open spec fn cancel_all(self) -> SchedulerView {
        SchedulerView { pending: Map::empty(), ..self }
    }

    /// The scheduler without the pending task of `key`.
    pub open spec fn cancel(self, key: Seq<char>) -> SchedulerView {
        SchedulerView { pending: self.pending.remove(key), ..self }
    }

    /// The scheduler after `n` calls of `schedule` for `key`, one after
    /// the other, while no timer ran out.
    pub open spec fn burst(self, key: Seq<char>, n: nat) -> SchedulerView
        decreases n,
    {
        if n == 0 {
            self
        } else {
            self.burst(key, (n - 1) as nat).try_schedule(key)
        }
    }
}

/// What a burst leaves: where the first call found a number left, the
/// last task that was scheduled is pending for its window, and the tasks
/// of the other windows are as they were; where the numbers were used up
/// before the burst, nothing has changed.
pub proof fn lemma_burst(s: SchedulerView, key: Seq<char>, n: nat)
    requires
        s.wf(),
        n >= 1,
    ensures
        s.burst(key, n).wf(),
        s.has_room() ==> s.burst(key, n).next_task == s.last_of_burst(n) + 1,
        s.has_room() ==> s.burst(key, n).pending == s.pending.insert(
            key,
            s.last_of_burst(n) as u64,
        ),
        !s.has_room() ==> s.burst(key, n) == s,
    decreases n,
{
    if n > 1 {
        lemma_burst(s, key, (n - 1) as nat);
        let mid = s.burst(key, (n - 1) as nat);
        if s.has_room() {
            assert(mid.try_schedule(key).pending =~= s.pending.insert(
                key,
                s.last_of_burst(n) as u64,
            ));
        }
    } else {
        assert(s.burst(key, 0) == s);
    }
}

/// Of a burst of calls of `schedule` for one window, however long, at most
/// one task runs, and once a task has run no timer of the window can run
/// another. Where the first call found a number left, exactly one runs:
/// the last that was scheduled; every task before it is refused when its
/// timer runs out. Where the numbers were used up before the burst, it
/// schedules nothing.
pub proof fn lemma_burst_runs_once(
    s: SchedulerView,
    key: Seq<char>,
    n: nat,
    task: u64,
    other: u64,
)
    requires
        s.wf(),
        n >= 1,
    ensures
        s.burst(key, n).fires(key, task) && s.burst(key, n).fires(key, other) ==> task == other,
        s.burst(key, n).fires(key, task) ==> !s.burst(key, n).fire(key, task).fires(key, other),
        s.has_room() ==> (s.burst(key, n).fires(key, task) <==> task == s.last_of_burst(n)),
        s.has_room() ==> s.burst(key, n).fire(key, s.last_of_burst(n) as u64).pending
            == s.pending.remove(key),
        !s.has_room() ==> s.burst(key, n) == s,
{
    lemma_burst(s, key, n);
    if s.has_room() {
        let last = s.last_of_burst(n) as u64;
        assert(s.burst(key, n).fire(key, last).pending =~= s.pending.remove(key));
    }
}

/// A timer that runs out for a task that is not pending changes nothing.
pub proof fn lemma_stale_timer(s: SchedulerView, key: Seq<char>, task: u64)
    requires
        !s.fires(key, task),
    ensures
        s.fire(key, task) == s,
{
}

impl View for DebounceScheduler {
    type V = SchedulerView;

    closed spec fn view(&self) -> SchedulerView {
        SchedulerView { pending: self.pending@, next_task: self.next_task as int }
    }
}

impl DebounceScheduler {
    /// The table is well formed and every pending task was numbered before
    /// the next one.
    pub closed spec fn wf(&self) -> bool {
        self.pending.wf() && self@.wf()
    }

    /// A well-formed scheduler has a well-formed view with finitely many
    /// pending tasks.
    pub proof fn lemma_wf(&self)
        requires
            self.wf(),
        ensures
            self@.wf(),
            self@.pending.dom().finite(),
    {
        self.pending.lemma_finite();
    }

    pub fn new() -> (s: DebounceScheduler)
        ensures
            s.wf(),
            s@.pending == Map::<Seq<char>, u64>::empty(),
            s@.next_task == 0,
    {
        DebounceScheduler { pending: LabelMap::new(), next_task: 0 }
    }

    /// The pending task of `key`.
    pub fn pending_task(&self, key: &str) -> (t: Option<u64>)
        requires
            self.wf(),
        ensures
            t == self@.superseded(key@),
    {
        match self.pending.get(key) {
            Some(t) => Some(*t),
            None => None,
        }
    }

    /// The number of windows with a pending task.
    pub fn pending_count(&self) -> (n: usize)
        requires
            self.wf(),
        ensures
            n == self@.pending.dom().len(),
    {
        self.pending.len()
    }

    /// Whether another task can be numbered.
    pub fn can_schedule(&self) -> (b: bool)
        ensures
            b == self@.has_room(),
    {
        self.next_task < u64::MAX
    }

    /// Schedules a task for `key` in place of the pending one. Nothing is
    /// scheduled, and nothing changes, once the task numbers are used up.
    pub fn schedule(&mut self, key: &str, delay_ms: u64) -> (r: Option<Scheduled>)
        requires
            old(self).wf(),
        ensures
            final(self).wf(),
            final(self)@ == old(self)@.try_schedule(key@),
            match r {
                Some(s) => {
                    &&& old(self)@.has_room()
                    &&& s.task == old(self)@.next_task
                    &&& s.delay_ms == delay_ms
                    &&& s.cancelled == old(self)@.superseded(key@)
                },
                None => !old(self)@.has_room(),
            },
    {
        if self.next_task == u64::MAX {
            return None;
        }
        let task = self.next_task;
        let cancelled = self.pending.insert(key.to_owned(), task);
        self.next_task = task + 1;
        Some(Scheduled { task, delay_ms, cancelled })
    }

    /// Decides, when the timer of `task` has run out, whether the task
    /// runs: it does if it is still the pending task of `key`, and is then
    /// no longer pending.
    pub fn fire(&mut self, key: &str, task: u64) -> (runs: bool)
        requires
            old(self).wf(),
        ensures
            final(self).wf(),
            runs == old(self)@.fires(key@, task),
            final(self)@ == old(self)@.fire(key@, task),
    {
        let current = match self.pending.get(key) {
            Some(t) => *t == task,
            None => false,
        };
        if current {
            self.pending.remove(key);
            proof {
                assert forall|k: Seq<char>| #[trigger]
                    self@.pending.contains_key(k) implies self@.pending[k] < self@.next_task by {
                    assert(old(self)@.pending.contains_key(k));
                }
            }
        }
        current
    }

    /// Forgets the pending task of `key` and returns it, to be cancelled.
    pub fn cancel(&mut self, key: &str) -> (t: Option<u64>)
        requires
            old(self).wf(),
        ensures
            final(self).wf(),
            t == old(self)@.superseded(key@),
            final(self)@ == old(self)@.cancel(key@),
    {
        self.pending.remove(key)
    }

    /// Forgets every pending task and returns them, each window once, to
    /// be cancelled.
    pub fn cancel_all(&mut self) -> (cancelled: Vec<Entry<u64>>)
        requires
            old(self).wf(),
        ensures
            final(self).wf(),
            final(self)@ == old(self)@.cancel_all(),
            distinct_keys(cancelled@),
            map_of(cancelled@) == old(self)@.pending,
            cancelled@.len() == old(self)@.pending.dom().len(),
    {
        self.pending.drain()
    }
}

} // verus!
