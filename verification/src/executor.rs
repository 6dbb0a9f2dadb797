//! A cooperative task executor with a bounded FIFO ready queue, waker
//! handles, and timers.
//!
//! The executor owns every piece of scheduler state — the ready queue, the
//! task store, the timer store, the current time, and an output log — so that
//! the scheduling rules themselves can be verified:
//!
//! * tasks are resumed in queue (FIFO) order, one `step` per queue entry;
//! * a task is enqueued by `spawn` or by a waker `signal`, and is never
//!   resumed more often than it has been enqueued;
//! * a computation that suspends `k` times is resumed exactly `k + 1` times
//!   over its whole life, however many duplicate wakes arrive;
//! * a timer reports completion only once its full duration has elapsed.
//!
//! The delay thread that a real timer would spawn lives outside this type:
//! whoever drives the executor advances the clock with [`Executor::advance`]
//! and delivers the thread's one wake-up with [`Executor::fire_timer`].

use vstd::prelude::*;

verus! {

/// Error returned when the ready queue is already at capacity.
#[derive(Debug, PartialEq, Eq, Structural, Clone, Copy)]
pub struct QueueFullError;

/// What one scheduling step did.
#[derive(Debug, PartialEq, Eq, Structural, Clone, Copy)]
pub enum StepOutcome {
    /// The ready queue was empty; nothing ran.
    Idle,
    /// The queue entry pointed at a task that had already completed;
    /// resuming it is a harmless no-op.
    Stale,
    /// The task's computation finished and was dropped.
    Done,
    /// The task's computation suspended again, keeping its wake callback.
    Pending,
}

/// A cloneable handle tied to one task; `Executor::signal` re-enqueues that
/// task. Any number of copies may exist and all act alike.
#[derive(Debug, PartialEq, Eq, Structural, Clone, Copy)]
pub struct WakerAdapter {
    pub task: usize,
}

impl WakerAdapter {
    /// The task this handle wakes.
    pub open spec fn task_id(&self) -> usize {
        self.task
    }
}

/// A suspendable unit of work, polled by the executor until it reports
/// completion.
#[derive(Debug)]
pub enum Computation {
    /// Completes on its first resume.
    Noop,
    /// Suspends `remaining` more times, then completes.
    CountDown { remaining: u64 },
    /// Completes once the referenced timer has gone off; until then it
    /// stores the caller's waker in the timer's shared state.
    Timer { timer: usize },
    /// Logs a message, waits for the referenced timer, then logs a second
    /// message and completes.
    Staged { start_message: String, end_message: String, timer: usize, started: bool },
}

impl Computation {
    /// How many times this computation will suspend before completing, when
    /// that is fixed in advance: `Some(k)` means it completes on resume
    /// `k + 1`. Timer-driven computations have no fixed budget.
    pub open spec fn resume_limit(&self) -> Option<nat> {
        match self {
            Computation::Noop => Some(0nat),
            Computation::CountDown { remaining } => Some(*remaining as nat),
            Computation::Timer { .. } => None,
            Computation::Staged { .. } => None,
        }
    }

    /// The timer this computation waits on, if any.
    pub open spec fn timer_ref(&self) -> Option<usize> {
        match self {
            Computation::Timer { timer } => Some(*timer),
            Computation::Staged { timer, .. } => Some(*timer),
            _ => None,
        }
    }
}

/// Shared state of one timer: when it was created, how long it runs, whether
/// it has gone off, and the waker stored by the computation awaiting it.
#[derive(Debug, Clone, Copy)]
pub struct TimerState {
    pub created: u64,
    pub duration: u64,
    pub completed: bool,
    pub waker: Option<WakerAdapter>,
}

/// One task: the computation it owns (dropped on completion) and ghost
/// bookkeeping that ties resumes to enqueues.
struct TaskSlot {
    computation: Option<Computation>,
    /// Count of enqueues: one per spawn or signal.
    enqueued: Ghost<nat>,
    /// Count of dequeues.
    popped: Ghost<nat>,
    /// How often its computation was actually resumed.
    resumed: Ghost<nat>,
    /// The computation's suspension budget, recorded at spawn.
    limit: Ghost<Option<nat>>,
}

/// Occurrences of `t` in `s`.
spec fn count_in(s: Seq<usize>, t: int) -> nat
    decreases s.len(),
{
    if s.len() == 0 {
        0
    } else {
        count_in(s.drop_last(), t) + if s.last() == t {
            1nat
        } else {
            0nat
        }
    }
}

proof fn lemma_count_push(s: Seq<usize>, x: usize, t: int)
    ensures
        count_in(s.push(x), t) == count_in(s, t) + if x == t {
            1nat
        } else {
            0nat
        },
{
    assert(s.push(x).drop_last() =~= s);
}

proof fn lemma_count_pop_front(s: Seq<usize>, t: int)
    requires
        s.len() > 0,
    ensures
        count_in(s, t) == count_in(s.subrange(1, s.len() as int), t) + if s[0] == t {
            1nat
        } else {
            0nat
        },
    decreases s.len(),
{
    let rest = s.subrange(1, s.len() as int);
    if s.len() == 1 {
        assert(rest =~= Seq::<usize>::empty());
        assert(s.drop_last() =~= Seq::<usize>::empty());
    } else {
        let head = s.drop_last();
        lemma_count_pop_front(head, t);
        assert(rest.drop_last() =~= head.subrange(1, head.len() as int));
        assert(rest.last() == s.last());
    }
}

proof fn lemma_count_absent(s: Seq<usize>, t: int)
    requires
        forall|i: int| 0 <= i < s.len() ==> (#[trigger] s[i]) != t,
    ensures
        count_in(s, t) == 0,
    decreases s.len(),
{
    if s.len() > 0 {
        lemma_count_absent(s.drop_last(), t);
    }
}

/// The single-threaded cooperative executor, together with its spawner side:
/// `spawn` submits computations, `run` drains the ready queue.
pub struct Executor {
    queue: Vec<usize>,
    capacity: usize,
    tasks: Vec<TaskSlot>,
    timers: Vec<TimerState>,
    now: u64,
    log: Vec<String>,
}

impl Executor {
    /// The ready queue, front first, as the ids of the queued tasks.
    pub closed spec fn queue_view(&self) -> Seq<usize> {
        self.queue@
    }

    /// The configured queue capacity.
    pub closed spec fn capacity(&self) -> usize {
        self.capacity
    }

    /// Number of tasks ever spawned (completed ones keep their slot).
    pub closed spec fn n_tasks(&self) -> int {
        self.tasks@.len() as int
    }

    /// Number of timers ever created.
    pub closed spec fn n_timers(&self) -> int {
        self.timers@.len() as int
    }

    /// The current time.
    pub closed spec fn time_now(&self) -> u64 {
        self.now
    }

    /// The messages logged so far.
    pub closed spec fn log_view(&self) -> Seq<Seq<char>> {
        self.log@.map_values(|m: String| m@)
    }

    /// Task `t`'s computation; `None` once it has completed.
    pub closed spec fn comp(&self, t: int) -> Option<Computation> {
        self.tasks@[t].computation
    }

    /// How often task `t` has been placed on the ready queue.
    pub closed spec fn enqueued(&self, t: int) -> nat {
        self.tasks@[t].enqueued@
    }

    /// Entries for task `t` currently waiting on the ready queue.
    pub closed spec fn queue_entries(&self, t: int) -> nat {
        count_in(self.queue@, t)
    }

    /// How often task `t`'s computation has been resumed.
    pub closed spec fn resumed(&self, t: int) -> nat {
        self.tasks@[t].resumed@
    }

    /// Task `t`'s suspension budget, recorded at spawn.
    pub closed spec fn limit(&self, t: int) -> Option<nat> {
        self.tasks@[t].limit@
    }

    /// Timer `j`'s shared state.
    pub closed spec fn timer(&self, j: int) -> TimerState {
        self.timers@[j]
    }

    /// All timer state, in creation order.
    pub closed spec fn timers_view(&self) -> Seq<TimerState> {
        self.timers@
    }

    /// The queue has no room for another entry.
    pub open spec fn queue_full(&self) -> bool {
        self.queue_view().len() >= self.capacity()
    }

    /// `c` may be spawned here: any timer it waits on must exist.
    pub open spec fn comp_timer_ok(&self, c: Computation) -> bool {
        match c.timer_ref() {
            Some(j) => j < self.n_timers(),
            None => true,
        }
    }

    spec fn task_wf(&self, t: int) -> bool {
        let s = self.tasks@[t];
        &&& s.enqueued@ == s.popped@ + count_in(self.queue@, t)
        &&& s.resumed@ <= s.popped@
        &&& match s.computation {
            Some(Computation::Noop) => s.limit@ == Some(0nat) && s.resumed@ == 0,
            Some(Computation::CountDown { remaining }) => s.limit@ == Some(
                (s.resumed@ + remaining) as nat,
            ),
            Some(Computation::Timer { timer }) => s.limit@ is None && timer < self.timers@.len(),
            Some(Computation::Staged { timer, .. }) => s.limit@ is None && timer
                < self.timers@.len(),
            None => match s.limit@ {
                Some(k) => s.resumed@ == k + 1,
                None => true,
            },
        }
    }

    spec fn timer_wf(&self, j: int) -> bool {
        let tm = self.timers@[j];
        &&& tm.created + tm.duration <= u64::MAX
        &&& tm.completed ==> self.now >= tm.created + tm.duration
        &&& match tm.waker {
            Some(w) => w.task < self.tasks@.len(),
            None => true,
        }
    }

    /// The executor's internal invariant.
    pub closed spec fn wf(&self) -> bool {
        &&& self.queue@.len() <= self.capacity
        &&& forall|i: int|
            0 <= i < self.queue@.len() ==> (#[trigger] self.queue@[i]) < self.tasks@.len()
        &&& forall|t: int| 0 <= t < self.tasks@.len() ==> #[trigger] self.task_wf(t)
        &&& forall|j: int| 0 <= j < self.timers@.len() ==> #[trigger] self.timer_wf(j)
    }

    /// A fresh executor: empty queue, no tasks, no timers, time zero.
    pub fn new(capacity: usize) -> (e: Executor)
        ensures
            e.wf(),
            e.queue_view() == Seq::<usize>::empty(),
            e.capacity() == capacity,
            e.n_tasks() == 0,
            e.n_timers() == 0,
            e.time_now() == 0,
            e.log_view() == Seq::<Seq<char>>::empty(),
    {
        let e = Executor {
            queue: Vec::new(),
            capacity,
            tasks: Vec::new(),
            timers: Vec::new(),
            now: 0,
            log: Vec::new(),
        };
        proof {
            assert(e.log_view() =~= Seq::<Seq<char>>::empty());
        }
        e
    }

    /// Submits a computation: wraps it in a fresh task and places that task
    /// at the back of the ready queue. Fails — and changes nothing — exactly
    /// when the queue is already at capacity.
    pub fn spawn(&mut self, c: Computation) -> (r: Result<WakerAdapter, QueueFullError>)
        requires
            old(self).wf(),
            old(self).comp_timer_ok(c),
        ensures
            final(self).wf(),
            r is Err <==> old(self).queue_full(),
            r is Err ==> *final(self) == *old(self),
            r is Ok ==> ({
                let t = old(self).n_tasks();
                &&& r->Ok_0.task_id() == t
                &&& final(self).n_tasks() == t + 1
                &&& final(self).queue_view() == old(self).queue_view().push(t as usize)
                &&& final(self).comp(t) == Some(c)
                &&& final(self).resumed(t) == 0
                &&& final(self).enqueued(t) == 1
                &&& final(self).limit(t) == c.resume_limit()
                &&& forall|u: int| 0 <= u < t ==> #[trigger] final(self).comp(u) == old(self).comp(u)
                &&& forall|u: int| 0 <= u < t ==> #[trigger] final(self).resumed(u) == old(self).resumed(u)
                &&& forall|u: int| 0 <= u < t ==> #[trigger] final(self).enqueued(u) == old(self).enqueued(u)
                &&& forall|u: int| 0 <= u < t ==> #[trigger] final(self).limit(u) == old(self).limit(u)
                &&& final(self).timers_view() == old(self).timers_view()
                &&& final(self).log_view() == old(self).log_view()
                &&& final(self).time_now() == old(self).time_now()
                &&& final(self).capacity() == old(self).capacity()
            }),
    {
        if self.queue.len() >= self.capacity {
            return Err(QueueFullError);
        }
        let ghost pre = *self;
        let ghost lim = c.resume_limit();
        let t: usize = self.tasks.len();
        let slot = TaskSlot {
            computation: Some(c),
            enqueued: Ghost(1nat),
            popped: Ghost(0nat),
            resumed: Ghost(0nat),
            limit: Ghost(lim),
        };
        self.tasks.push(slot);
        self.queue.push(t);
        proof {
            assert forall|u: int| 0 <= u < self.tasks@.len() implies #[trigger] self.task_wf(
                u,
            ) by {
                lemma_count_push(pre.queue@, t, u);
                if u < pre.tasks@.len() {
                    assert(pre.task_wf(u));
                    assert(self.tasks@[u] == pre.tasks@[u]);
                } else {
                    assert(u == t);
                    assert forall|i: int| 0 <= i < pre.queue@.len() implies (#[trigger] pre.queue@[
                        i
                    ]) != t by {}
                    lemma_count_absent(pre.queue@, t as int);
                }
            }
            assert forall|j: int| 0 <= j < self.timers@.len() implies #[trigger] self.timer_wf(
                j,
            ) by {
                assert(pre.timer_wf(j));
            }
        }
        Ok(WakerAdapter { task: t })
    }

    /// Wakes the task behind `w`: re-enqueues it at the back of the queue.
    /// Fails — and changes nothing — exactly when the queue is full. Waking a
    /// task that has already completed still enqueues it; the entry is later
    /// skipped as stale.
    pub fn signal(&mut self, w: &WakerAdapter) -> (r: Result<(), QueueFullError>)
        requires
            old(self).wf(),
            w.task_id() < old(self).n_tasks(),
        ensures
            final(self).wf(),
            r is Err <==> old(self).queue_full(),
            r is Err ==> *final(self) == *old(self),
            r is Ok ==> ({
                let t = w.task_id() as int;
                &&& final(self).queue_view() == old(self).queue_view().push(w.task_id())
                &&& final(self).enqueued(t) == old(self).enqueued(t) + 1
                &&& final(self).comp(t) == old(self).comp(t)
                &&& final(self).resumed(t) == old(self).resumed(t)
                &&& final(self).limit(t) == old(self).limit(t)
                &&& forall|u: int|
                    0 <= u < old(self).n_tasks() && u != t ==> #[trigger] final(self).comp(u)
                        == old(self).comp(u)
                &&& forall|u: int|
                    0 <= u < old(self).n_tasks() && u != t ==> #[trigger] final(self).resumed(u)
                        == old(self).resumed(u)
                &&& forall|u: int|
                    0 <= u < old(self).n_tasks() && u != t ==> #[trigger] final(self).enqueued(u)
                        == old(self).enqueued(u)
                &&& forall|u: int|
                    0 <= u < old(self).n_tasks() && u != t ==> #[trigger] final(self).limit(u)
                        == old(self).limit(u)
                &&& final(self).n_tasks() == old(self).n_tasks()
                &&& final(self).timers_view() == old(self).timers_view()
                &&& final(self).log_view() == old(self).log_view()
                &&& final(self).time_now() == old(self).time_now()
                &&& final(self).capacity() == old(self).capacity()
            }),
    {
        if self.queue.len() >= self.capacity {
            return Err(QueueFullError);
        }
        let ghost pre = *self;
        let t: usize = w.task;
        self.queue.push(t);
        let ghost old_slot = self.tasks@[t as int];
        // Re-seat the slot with its bumped enqueue count, keeping the
        // computation itself in place.
        let comp = self.take_computation(t);
        self.set_task_slot(
            t,
            TaskSlot {
                computation: comp,
                enqueued: Ghost(old_slot.enqueued@ + 1),
                popped: Ghost(old_slot.popped@),
                resumed: Ghost(old_slot.resumed@),
                limit: Ghost(old_slot.limit@),
            },
        );
        proof {
            assert(self.tasks@ =~= pre.tasks@.update(
                t as int,
                TaskSlot {
                    computation: old_slot.computation,
                    enqueued: Ghost(old_slot.enqueued@ + 1),
                    popped: Ghost(old_slot.popped@),
                    resumed: Ghost(old_slot.resumed@),
                    limit: Ghost(old_slot.limit@),
                },
            ));
            assert forall|u: int| 0 <= u < self.tasks@.len() implies #[trigger] self.task_wf(
                u,
            ) by {
                assert(pre.task_wf(u));
                lemma_count_push(pre.queue@, t, u);
            }
            assert forall|j: int| 0 <= j < self.timers@.len() implies #[trigger] self.timer_wf(
                j,
            ) by {
                assert(pre.timer_wf(j));
            }
        }
        Ok(())
    }

    /// What one non-idle `step` guarantees, relating the state before (`pre`)
    /// to the state after (`post`).
    pub open spec fn step_post(pre: Executor, post: Executor, r: StepOutcome) -> bool {
        let t = pre.queue_view()[0] as int;
        &&& post.queue_view() == pre.queue_view().subrange(1, pre.queue_view().len() as int)
        &&& post.n_tasks() == pre.n_tasks()
        &&& post.n_timers() == pre.n_timers()
        &&& post.time_now() == pre.time_now()
        &&& post.capacity() == pre.capacity()
        &&& post.enqueued(t) == pre.enqueued(t)
        &&& post.limit(t) == pre.limit(t)
        &&& forall|u: int| 0 <= u < pre.n_tasks() && u != t ==> #[trigger] post.comp(u) == pre.comp(u)
        &&& forall|u: int|
            0 <= u < pre.n_tasks() && u != t ==> #[trigger] post.resumed(u) == pre.resumed(u)
        &&& forall|u: int|
            0 <= u < pre.n_tasks() && u != t ==> #[trigger] post.enqueued(u) == pre.enqueued(u)
        &&& forall|u: int| 0 <= u < pre.n_tasks() && u != t ==> #[trigger] post.limit(u) == pre.limit(u)
        &&& match pre.comp(t) {
            None => {
                &&& r == StepOutcome::Stale
                &&& post.comp(t) is None
                &&& post.resumed(t) == pre.resumed(t)
                &&& post.log_view() == pre.log_view()
                &&& post.timers_view() == pre.timers_view()
            },
            Some(c) => {
                &&& post.resumed(t) == pre.resumed(t) + 1
                &&& match c {
                    Computation::Noop => {
                        &&& r == StepOutcome::Done
                        &&& post.comp(t) is None
                        &&& post.log_view() == pre.log_view()
                        &&& post.timers_view() == pre.timers_view()
                    },
                    Computation::CountDown { remaining } => {
                        &&& post.log_view() == pre.log_view()
                        &&& post.timers_view() == pre.timers_view()
                        &&& if remaining == 0 {
                            r == StepOutcome::Done && post.comp(t) is None
                        } else {
                            r == StepOutcome::Pending && post.comp(t) == Some(
                                Computation::CountDown { remaining: (remaining - 1) as u64 },
                            )
                        }
                    },
                    Computation::Timer { timer } => {
                        &&& post.log_view() == pre.log_view()
                        &&& if pre.timer(timer as int).completed {
                            &&& r == StepOutcome::Done
                            &&& post.comp(t) is None
                            &&& post.timers_view() == pre.timers_view()
                        } else {
                            &&& r == StepOutcome::Pending
                            &&& post.comp(t) == Some(c)
                            &&& Executor::waker_stored(pre, post, timer as int, t)
                        }
                    },
                    Computation::Staged { start_message, end_message, timer, started } => {
                        if pre.timer(timer as int).completed {
                            &&& r == StepOutcome::Done
                            &&& post.comp(t) is None
                            &&& post.timers_view() == pre.timers_view()
                            &&& post.log_view() == if started {
                                pre.log_view().push(end_message@)
                            } else {
                                pre.log_view().push(start_message@).push(end_message@)
                            }
                        } else {
                            &&& r == StepOutcome::Pending
                            &&& post.comp(t) == Some(
                                Computation::Staged {
                                    start_message,
                                    end_message,
                                    timer,
                                    started: true,
                                },
                            )
                            &&& Executor::waker_stored(pre, post, timer as int, t)
                            &&& post.log_view() == if started {
                                pre.log_view()
                            } else {
                                pre.log_view().push(start_message@)
                            }
                        }
                    },
                }
            },
        }
    }

    /// `post`'s timers equal `pre`'s, except that timer `j` now stores a
    /// fresh waker for task `t`.
    pub open spec fn waker_stored(pre: Executor, post: Executor, j: int, t: int) -> bool {
        post.timers_view() == pre.timers_view().update(
            j,
            TimerState {
                created: pre.timer(j).created,
                duration: pre.timer(j).duration,
                completed: pre.timer(j).completed,
                waker: Some(WakerAdapter { task: t as usize }),
            },
        )
    }

    /// Takes the task at the front of the ready queue and resumes its
    /// computation once, exactly as [`Executor::step_post`] describes. With
    /// an empty queue it does nothing.
    pub fn step(&mut self) -> (r: StepOutcome)
        requires
            old(self).wf(),
        ensures
            final(self).wf(),
            old(self).queue_view().len() == 0 ==> r == StepOutcome::Idle && *final(self) == *old(self),
            old(self).queue_view().len() > 0 ==> Executor::step_post(*old(self), *final(self), r),
            old(self).log_view().is_prefix_of(final(self).log_view()),
            forall|j: int|
                0 <= j < old(self).n_timers() ==> (#[trigger] final(self).timer(j)).created == old(self).timer(j).created
                    && final(self).timer(j).duration == old(self).timer(j).duration
                    && final(self).timer(j).completed == old(self).timer(j).completed,
    {
        if self.queue.len() == 0 {
            return StepOutcome::Idle;
        }
        let ghost pre = *self;
        let t: usize = self.queue.remove(0);
        proof {
            assert(self.queue@ =~= pre.queue@.subrange(1, pre.queue@.len() as int));
            assert(pre.task_wf(t as int));
        }
        let ghost old_slot = pre.tasks@[t as int];

        // Inspect the slot and take an owned copy of its computation.
        let comp_now: Option<Computation> = match &self.tasks[t].computation {
            None => None,
            Some(Computation::Noop) => Some(Computation::Noop),
            Some(Computation::CountDown { remaining }) => Some(
                Computation::CountDown { remaining: *remaining },
            ),
            Some(Computation::Timer { timer }) => Some(Computation::Timer { timer: *timer }),
            Some(Computation::Staged { start_message, end_message, timer, started }) => Some(
                Computation::Staged {
                    start_message: start_message.clone(),
                    end_message: end_message.clone(),
                    timer: *timer,
                    started: *started,
                },
            ),
        };
        proof {
            assert(comp_now == old_slot.computation);
        }

        let outcome: StepOutcome = match comp_now {
            None => {
                self.set_task_slot(
                    t,
                    TaskSlot {
                        computation: None,
                        enqueued: Ghost(old_slot.enqueued@),
                        popped: Ghost(old_slot.popped@ + 1),
                        resumed: Ghost(old_slot.resumed@),
                        limit: Ghost(old_slot.limit@),
                    },
                );
                StepOutcome::Stale
            },
            Some(Computation::Noop) => {
                self.set_task_slot(
                    t,
                    TaskSlot {
                        computation: None,
                        enqueued: Ghost(old_slot.enqueued@),
                        popped: Ghost(old_slot.popped@ + 1),
                        resumed: Ghost(old_slot.resumed@ + 1),
                        limit: Ghost(old_slot.limit@),
                    },
                );
                StepOutcome::Done
            },
            Some(Computation::CountDown { remaining }) => {
                let next: Option<Computation> = if remaining == 0 {
                    None
                } else {
                    Some(Computation::CountDown { remaining: remaining - 1 })
                };
                let done: bool = remaining == 0;
                self.set_task_slot(
                    t,
                    TaskSlot {
                        computation: next,
                        enqueued: Ghost(old_slot.enqueued@),
                        popped: Ghost(old_slot.popped@ + 1),
                        resumed: Ghost(old_slot.resumed@ + 1),
                        limit: Ghost(old_slot.limit@),
                    },
                );
                if done {
                    StepOutcome::Done
                } else {
                    StepOutcome::Pending
                }
            },
            Some(Computation::Timer { timer }) => {
                if self.timers[timer].completed {
                    self.set_task_slot(
                        t,
                        TaskSlot {
                            computation: None,
                            enqueued: Ghost(old_slot.enqueued@),
                            popped: Ghost(old_slot.popped@ + 1),
                            resumed: Ghost(old_slot.resumed@ + 1),
                            limit: Ghost(old_slot.limit@),
                        },
                    );
                    StepOutcome::Done
                } else {
                    self.store_waker(timer, t);
                    self.set_task_slot(
                        t,
                        TaskSlot {
                            computation: Some(Computation::Timer { timer }),
                            enqueued: Ghost(old_slot.enqueued@),
                            popped: Ghost(old_slot.popped@ + 1),
                            resumed: Ghost(old_slot.resumed@ + 1),
                            limit: Ghost(old_slot.limit@),
                        },
                    );
                    StepOutcome::Pending
                }
            },
            Some(Computation::Staged { start_message, end_message, timer, started }) => {
                let ghost lv0 = self.log_view();
                if !started {
                    self.log.push(start_message.clone());
                    proof {
                        assert(self.log_view() =~= lv0.push(start_message@));
                    }
                }
                let ghost lv1 = self.log_view();
                if self.timers[timer].completed {
                    let ghost em = end_message@;
                    self.log.push(end_message);
                    proof {
                        assert(self.log_view() =~= lv1.push(em));
                    }
                    self.set_task_slot(
                        t,
                        TaskSlot {
                            computation: None,
                            enqueued: Ghost(old_slot.enqueued@),
                            popped: Ghost(old_slot.popped@ + 1),
                            resumed: Ghost(old_slot.resumed@ + 1),
                            limit: Ghost(old_slot.limit@),
                        },
                    );
                    StepOutcome::Done
                } else {
                    self.store_waker(timer, t);
                    self.set_task_slot(
                        t,
                        TaskSlot {
                            computation: Some(
                                Computation::Staged {
                                    start_message,
                                    end_message,
                                    timer,
                                    started: true,
                                },
                            ),
                            enqueued: Ghost(old_slot.enqueued@),
                            popped: Ghost(old_slot.popped@ + 1),
                            resumed: Ghost(old_slot.resumed@ + 1),
                            limit: Ghost(old_slot.limit@),
                        },
                    );
                    StepOutcome::Pending
                }
            },
        };
        proof {
            self.lemma_step_wf(pre, t as int);
            assert(pre.log_view() =~= self.log_view().subrange(0, pre.log_view().len() as int));
        }
        outcome
    }

    /// Replaces task slot `t`.
    fn set_task_slot(&mut self, t: usize, slot: TaskSlot)
        requires
            t < old(self).tasks@.len(),
        ensures
            final(self).tasks@ == old(self).tasks@.update(t as int, slot),
            final(self).queue@ == old(self).queue@,
            final(self).capacity == old(self).capacity,
            final(self).timers@ == old(self).timers@,
            final(self).now == old(self).now,
            final(self).log@ == old(self).log@,
    {
        let _ = self.tasks.remove(t);
        self.tasks.insert(t, slot);
        proof {
            assert(self.tasks@ =~= old(self).tasks@.update(t as int, slot));
        }
    }

    /// Stores a fresh waker for task `t` in timer `j`, overwriting any
    /// previous one.
    fn store_waker(&mut self, j: usize, t: usize)
        requires
            j < old(self).timers@.len(),
        ensures
            final(self).timers@ == old(self).timers@.update(
                j as int,
                TimerState {
                    created: old(self).timers@[j as int].created,
                    duration: old(self).timers@[j as int].duration,
                    completed: old(self).timers@[j as int].completed,
                    waker: Some(WakerAdapter { task: t }),
                },
            ),
            final(self).queue@ == old(self).queue@,
            final(self).capacity == old(self).capacity,
            final(self).tasks@ == old(self).tasks@,
            final(self).now == old(self).now,
            final(self).log@ == old(self).log@,
    {
        let mut tm = self.timers[j];
        tm.waker = Some(WakerAdapter { task: t });
        self.timers.set(j, tm);
    }

    /// After a step popped task `t`, the invariant still holds.
    proof fn lemma_step_wf(&self, pre: Executor, t: int)
        requires
            pre.wf(),
            pre.queue@.len() > 0,
            pre.queue@[0] == t,
            self.queue@ == pre.queue@.subrange(1, pre.queue@.len() as int),
            self.capacity == pre.capacity,
            self.tasks@.len() == pre.tasks@.len(),
            forall|u: int|
                0 <= u < pre.tasks@.len() && u != t ==> #[trigger] self.tasks@[u] == pre.tasks@[u],
            self.tasks@[t].enqueued@ == pre.tasks@[t].enqueued@,
            self.tasks@[t].popped@ == pre.tasks@[t].popped@ + 1,
            self.tasks@[t].limit@ == pre.tasks@[t].limit@,
            // the resumed count and computation moved as one legal resume:
            match pre.tasks@[t].computation {
                None => self.tasks@[t].resumed@ == pre.tasks@[t].resumed@ && self.tasks@[
                    t
                ].computation is None,
                Some(c) => self.tasks@[t].resumed@ == pre.tasks@[t].resumed@ + 1 && match c {
                    Computation::Noop => self.tasks@[t].computation is None,
                    Computation::CountDown { remaining } => if remaining == 0 {
                        self.tasks@[t].computation is None
                    } else {
                        self.tasks@[t].computation == Some(
                            Computation::CountDown { remaining: (remaining - 1) as u64 },
                        )
                    },
                    Computation::Timer { .. } => self.tasks@[t].computation is None || self.tasks@[
                        t
                    ].computation == pre.tasks@[t].computation,
                    Computation::Staged { start_message, end_message, timer, started } => self
                        .tasks@[t].computation is None || self.tasks@[t].computation == Some(
                        Computation::Staged { start_message, end_message, timer, started: true },
                    ),
                },
            },
            self.timers@.len() == pre.timers@.len(),
            forall|j: int|
                0 <= j < pre.timers@.len() ==> (#[trigger] self.timers@[j]).created == pre.timers@[
                    j
                ].created && self.timers@[j].duration == pre.timers@[j].duration && self.timers@[
                    j
                ].completed == pre.timers@[j].completed && (self.timers@[j].waker == pre.timers@[
                    j
                ].waker || self.timers@[j].waker == Some(
                    WakerAdapter { task: t as usize },
                )),
            self.now == pre.now,
        ensures
            self.wf(),
    {
        assert(0 <= t < pre.tasks@.len());
        assert forall|u: int| 0 <= u < self.tasks@.len() implies #[trigger] self.task_wf(u) by {
            assert(pre.task_wf(u));
            lemma_count_pop_front(pre.queue@, u);
        }
        assert forall|j: int| 0 <= j < self.timers@.len() implies #[trigger] self.timer_wf(j) by {
            assert(pre.timer_wf(j));
        }
    }

    /// Drains the ready queue: repeatedly steps until the queue is empty,
    /// returning how many queue entries were processed. No new entries can
    /// appear meanwhile — wakes only come from outside `run` — so the count
    /// equals the number of entries present at the start, and every queued
    /// computation that completes on first resume has completed when `run`
    /// returns.
    pub fn run(&mut self) -> (n: usize)
        requires
            old(self).wf(),
        ensures
            final(self).wf(),
            final(self).queue_view().len() == 0,
            n as int == old(self).queue_view().len(),
            final(self).n_tasks() == old(self).n_tasks(),
            final(self).n_timers() == old(self).n_timers(),
            final(self).time_now() == old(self).time_now(),
            final(self).capacity() == old(self).capacity(),
            forall|u: int|
                0 <= u < old(self).n_tasks() ==> #[trigger] final(self).enqueued(u) == old(self).enqueued(u),
            forall|u: int|
                0 <= u < old(self).n_tasks() ==> #[trigger] final(self).limit(u) == old(self).limit(u),
            forall|i: int|
                0 <= i < old(self).queue_view().len() ==> ({
                    let t = #[trigger] old(self).queue_view()[i] as int;
                    (match old(self).comp(t) {
                        Some(c) => c.resume_limit() == Some(0nat),
                        None => false,
                    }) ==> final(self).comp(t) is None
                }),
            old(self).log_view().is_prefix_of(final(self).log_view()),
            forall|j: int|
                0 <= j < old(self).n_timers() ==> (#[trigger] final(self).timer(j)).created == old(self).timer(j).created
                    && final(self).timer(j).duration == old(self).timer(j).duration
                    && final(self).timer(j).completed == old(self).timer(j).completed,
    {
        let ghost e0 = *self;
        let ghost q0 = self.queue@;
        let mut n: usize = 0;
        while self.queue.len() > 0
            invariant
                self.wf(),
                n as int + self.queue@.len() == q0.len(),
                self.queue@ == q0.subrange(n as int, q0.len() as int),
                self.tasks@.len() == e0.tasks@.len(),
                self.timers@.len() == e0.timers@.len(),
                self.now == e0.now,
                self.capacity == e0.capacity,
                e0.wf(),
                q0 == e0.queue@,
                forall|u: int|
                    0 <= u < e0.n_tasks() ==> #[trigger] self.enqueued(u) == e0.enqueued(u),
                forall|u: int|
                    0 <= u < e0.n_tasks() ==> #[trigger] self.limit(u) == e0.limit(u),
                e0.log_view().is_prefix_of(self.log_view()),
                forall|j: int|
                    0 <= j < e0.n_timers() ==> (#[trigger] self.timer(j)).created == e0.timer(j).created
                        && self.timer(j).duration == e0.timer(j).duration
                        && self.timer(j).completed == e0.timer(j).completed,
                forall|u: int|
                    0 <= u < e0.n_tasks() ==> ((match e0.comp(u) {
                        Some(c) => c.resume_limit() == Some(0nat),
                        None => false,
                    }) ==> (#[trigger] self.comp(u) == e0.comp(u) || self.comp(u) is None)),
                forall|i: int|
                    0 <= i < n ==> ({
                        let t = #[trigger] q0[i] as int;
                        (match e0.comp(t) {
                            Some(c) => c.resume_limit() == Some(0nat),
                            None => false,
                        }) ==> self.comp(t) is None
                    }),
            decreases self.queue@.len(),
        {
            let ghost before = *self;
            let _ = self.step();
            proof {
                assert(before.queue@[0] == q0[n as int]);
                assert(self.queue@ =~= q0.subrange(n as int + 1, q0.len() as int));
                assert(e0.log_view() =~= self.log_view().subrange(0, e0.log_view().len() as int));
            }
            n = n + 1;
        }
        n
    }

    /// Moves the clock forward by `dt`. Nothing else changes; in particular
    /// no timer goes off by itself — delivery of a timer's wake-up is a
    /// separate `fire_timer` event.
    pub fn advance(&mut self, dt: u64)
        requires
            old(self).wf(),
            old(self).time_now() + dt <= u64::MAX,
        ensures
            final(self).wf(),
            final(self).time_now() == old(self).time_now() + dt,
            final(self).queue_view() == old(self).queue_view(),
            final(self).n_tasks() == old(self).n_tasks(),
            final(self).timers_view() == old(self).timers_view(),
            final(self).log_view() == old(self).log_view(),
            final(self).capacity() == old(self).capacity(),
            forall|u: int|
                0 <= u < old(self).n_tasks() ==> #[trigger] final(self).comp(u) == old(self).comp(u),
            forall|u: int|
                0 <= u < old(self).n_tasks() ==> #[trigger] final(self).resumed(u) == old(self).resumed(u),
            forall|u: int|
                0 <= u < old(self).n_tasks() ==> #[trigger] final(self).enqueued(u) == old(self).enqueued(u),
            forall|u: int|
                0 <= u < old(self).n_tasks() ==> #[trigger] final(self).limit(u) == old(self).limit(u),
    {
        let ghost pre = *self;
        self.now = self.now + dt;
        proof {
            assert forall|u: int| 0 <= u < self.tasks@.len() implies #[trigger] self.task_wf(
                u,
            ) by {
                assert(pre.task_wf(u));
            }
            assert forall|j: int| 0 <= j < self.timers@.len() implies #[trigger] self.timer_wf(
                j,
            ) by {
                assert(pre.timer_wf(j));
            }
        }
    }

    /// Creates a timer that runs for `duration` starting now. The timer's
    /// wake-up must later be delivered with [`Executor::fire_timer`].
    pub fn new_timer(&mut self, duration: u64) -> (j: usize)
        requires
            old(self).wf(),
            old(self).time_now() + duration <= u64::MAX,
        ensures
            final(self).wf(),
            j as int == old(self).n_timers(),
            final(self).n_timers() == j as int + 1,
            final(self).timer(j as int) == (TimerState {
                created: old(self).time_now(),
                duration,
                completed: false,
                waker: None,
            }),
            forall|i: int|
                0 <= i < old(self).n_timers() ==> #[trigger] final(self).timer(i) == old(self).timer(i),
            final(self).queue_view() == old(self).queue_view(),
            final(self).n_tasks() == old(self).n_tasks(),
            final(self).time_now() == old(self).time_now(),
            final(self).log_view() == old(self).log_view(),
            final(self).capacity() == old(self).capacity(),
            forall|u: int|
                0 <= u < old(self).n_tasks() ==> #[trigger] final(self).comp(u) == old(self).comp(u),
            forall|u: int|
                0 <= u < old(self).n_tasks() ==> #[trigger] final(self).resumed(u) == old(self).resumed(u),
            forall|u: int|
                0 <= u < old(self).n_tasks() ==> #[trigger] final(self).enqueued(u) == old(self).enqueued(u),
            forall|u: int|
                0 <= u < old(self).n_tasks() ==> #[trigger] final(self).limit(u) == old(self).limit(u),
    {
        let ghost pre = *self;
        let j = self.timers.len();
        self.timers.push(
            TimerState { created: self.now, duration, completed: false, waker: None },
        );
        proof {
            assert forall|u: int| 0 <= u < self.tasks@.len() implies #[trigger] self.task_wf(
                u,
            ) by {
                assert(pre.task_wf(u));
            }
            assert forall|i: int| 0 <= i < self.timers@.len() implies #[trigger] self.timer_wf(
                i,
            ) by {
                if i < pre.timers@.len() {
                    assert(pre.timer_wf(i));
                }
            }
        }
        j
    }

    /// Delivers timer `j`'s wake-up, playing the part of the background
    /// delay thread. Before the timer's duration has elapsed, or once the
    /// timer has already gone off, nothing happens and `Ok(false)` is
    /// returned. Otherwise the completion flag is set and the stored waker —
    /// if any — is signalled exactly once; that signal fails with
    /// `QueueFullError` (and nothing changes) exactly when the queue is full.
    pub fn fire_timer(&mut self, j: usize) -> (r: Result<bool, QueueFullError>)
        requires
            old(self).wf(),
            j < old(self).n_timers(),
        ensures
            final(self).wf(),
            ({
                let tm = old(self).timer(j as int);
                let due = old(self).time_now() >= tm.created + tm.duration;
                &&& (!due || tm.completed) ==> r == Ok::<bool, QueueFullError>(false) && *final(self) == *old(self)
                &&& (due && !tm.completed) ==> match tm.waker {
                    None => {
                        &&& r == Ok::<bool, QueueFullError>(true)
                        &&& Executor::timer_fired(*old(self), *final(self), j as int)
                        &&& final(self).queue_view() == old(self).queue_view()
                        &&& forall|u: int|
                            0 <= u < old(self).n_tasks() ==> #[trigger] final(self).comp(u) == old(self).comp(u)
                        &&& forall|u: int|
                            0 <= u < old(self).n_tasks() ==> #[trigger] final(self).resumed(u) == old(self).resumed(u)
                        &&& forall|u: int|
                            0 <= u < old(self).n_tasks() ==> #[trigger] final(self).enqueued(u) == old(self).enqueued(u)
                        &&& forall|u: int|
                            0 <= u < old(self).n_tasks() ==> #[trigger] final(self).limit(u) == old(self).limit(u)
                    },
                    Some(w) => {
                        &&& r is Err <==> old(self).queue_full()
                        &&& r is Err ==> *final(self) == *old(self)
                        &&& r is Ok ==> ({
                            &&& r == Ok::<bool, QueueFullError>(true)
                            &&& Executor::timer_fired(*old(self), *final(self), j as int)
                            &&& final(self).queue_view() == old(self).queue_view().push(
                                w.task_id(),
                            )
                            &&& final(self).enqueued(w.task_id() as int) == old(self).enqueued(
                                w.task_id() as int,
                            ) + 1
                            &&& forall|u: int|
                                0 <= u < old(self).n_tasks() ==> #[trigger] final(self).comp(u)
                                    == old(self).comp(u)
                            &&& forall|u: int|
                                0 <= u < old(self).n_tasks() ==> #[trigger] final(self).resumed(u)
                                    == old(self).resumed(u)
                            &&& forall|u: int|
                                0 <= u < old(self).n_tasks() ==> #[trigger] final(self).limit(u)
                                    == old(self).limit(u)
                            &&& forall|u: int|
                                0 <= u < old(self).n_tasks() && u != w.task_id() as int
                                    ==> #[trigger] final(self).enqueued(u) == old(self).enqueued(u)
                        })
                    },
                }
            }),
    {
        let due = {
            let tm = &self.timers[j];
            // `created + duration` stays in range by the invariant.
            proof {
                assert(self.timer_wf(j as int));
            }
            self.now >= tm.created + tm.duration && !tm.completed
        };
        if !due {
            return Ok(false);
        }
        let ghost pre = *self;
        let stored: Option<WakerAdapter> = self.timers[j].waker;
        match stored {
            None => {
                let tm = self.timers[j];
                self.timers.set(
                    j,
                    TimerState {
                        created: tm.created,
                        duration: tm.duration,
                        completed: true,
                        waker: None,
                    },
                );
                proof {
                    self.lemma_fire_wf(pre, j as int);
                }
                Ok(true)
            },
            Some(w) => {
                if self.queue.len() >= self.capacity {
                    return Err(QueueFullError);
                }
                let tm = self.timers[j];
                self.timers.set(
                    j,
                    TimerState {
                        created: tm.created,
                        duration: tm.duration,
                        completed: true,
                        waker: None,
                    },
                );
                proof {
                    assert(pre.timer_wf(j as int));
                }
                self.queue.push(w.task);
                let ghost old_slot = self.tasks@[w.task as int];
                let comp = self.take_computation(w.task);
                self.set_task_slot(
                    w.task,
                    TaskSlot {
                        computation: comp,
                        enqueued: Ghost(old_slot.enqueued@ + 1),
                        popped: Ghost(old_slot.popped@),
                        resumed: Ghost(old_slot.resumed@),
                        limit: Ghost(old_slot.limit@),
                    },
                );
                proof {
                    assert(pre.timer_wf(j as int));
                    assert forall|u: int|
                        0 <= u < self.tasks@.len() implies #[trigger] self.task_wf(u) by {
                        assert(pre.task_wf(u));
                        lemma_count_push(pre.queue@, w.task, u);
                    }
                    assert forall|i: int|
                        0 <= i < self.timers@.len() implies #[trigger] self.timer_wf(i) by {
                        assert(pre.timer_wf(i));
                    }
                }
                Ok(true)
            },
        }
    }

    /// Timer `j` has gone off: completed, waker delivered and cleared,
    /// everything else about the timers, clock, and log unchanged.
    pub open spec fn timer_fired(pre: Executor, post: Executor, j: int) -> bool {
        &&& post.timers_view() == pre.timers_view().update(
            j,
            TimerState {
                created: pre.timer(j).created,
                duration: pre.timer(j).duration,
                completed: true,
                waker: None,
            },
        )
        &&& post.n_tasks() == pre.n_tasks()
        &&& post.time_now() == pre.time_now()
        &&& post.log_view() == pre.log_view()
        &&& post.capacity() == pre.capacity()
    }

    /// Takes the computation out of slot `t`, leaving `None` there; used
    /// only while re-seating the same slot.
    fn take_computation(&mut self, t: usize) -> (c: Option<Computation>)
        requires
            t < old(self).tasks@.len(),
        ensures
            c == old(self).tasks@[t as int].computation,
            final(self).tasks@ == old(self).tasks@.update(
                t as int,
                TaskSlot {
                    computation: None,
                    enqueued: old(self).tasks@[t as int].enqueued,
                    popped: old(self).tasks@[t as int].popped,
                    resumed: old(self).tasks@[t as int].resumed,
                    limit: old(self).tasks@[t as int].limit,
                },
            ),
            final(self).queue@ == old(self).queue@,
            final(self).capacity == old(self).capacity,
            final(self).timers@ == old(self).timers@,
            final(self).now == old(self).now,
            final(self).log@ == old(self).log@,
    {
        let ghost old_slot = self.tasks@[t as int];
        let taken = self.tasks.remove(t);
        let slot = TaskSlot {
            computation: None,
            enqueued: Ghost(old_slot.enqueued@),
            popped: Ghost(old_slot.popped@),
            resumed: Ghost(old_slot.resumed@),
            limit: Ghost(old_slot.limit@),
        };
        self.tasks.insert(t, slot);
        proof {
            assert(self.tasks@ =~= old(self).tasks@.update(
                t as int,
                TaskSlot {
                    computation: None,
                    enqueued: old_slot.enqueued,
                    popped: old_slot.popped,
                    resumed: old_slot.resumed,
                    limit: old_slot.limit,
                },
            ));
        }
        taken.computation
    }

    /// After firing timer `j` with no waker stored, the invariant holds.
    proof fn lemma_fire_wf(&self, pre: Executor, j: int)
        requires
            pre.wf(),
            0 <= j < pre.timers@.len(),
            pre.now >= pre.timers@[j].created + pre.timers@[j].duration,
            self.timers@ == pre.timers@.update(
                j,
                TimerState {
                    created: pre.timers@[j].created,
                    duration: pre.timers@[j].duration,
                    completed: true,
                    waker: None,
                },
            ),
            self.queue@ == pre.queue@,
            self.capacity == pre.capacity,
            self.tasks@ == pre.tasks@,
            self.now == pre.now,
        ensures
            self.wf(),
    {
        assert forall|u: int| 0 <= u < self.tasks@.len() implies #[trigger] self.task_wf(u) by {
            assert(pre.task_wf(u));
        }
        assert forall|i: int| 0 <= i < self.timers@.len() implies #[trigger] self.timer_wf(i) by {
            assert(pre.timer_wf(i));
        }
    }

    /// Number of tasks ever spawned.
    pub fn task_count(&self) -> (n: usize)
        ensures
            n as int == self.n_tasks(),
    {
        self.tasks.len()
    }

    /// Number of timers ever created.
    pub fn timer_count(&self) -> (n: usize)
        ensures
            n as int == self.n_timers(),
    {
        self.timers.len()
    }

    /// Number of entries waiting on the ready queue.
    pub fn queue_len(&self) -> (n: usize)
        ensures
            n as int == self.queue_view().len(),
    {
        self.queue.len()
    }

    /// The current time.
    pub fn current_time(&self) -> (t: u64)
        ensures
            t == self.time_now(),
    {
        self.now
    }

    /// Whether the task behind `w` has completed (and been dropped).
    pub fn task_done(&self, w: &WakerAdapter) -> (b: bool)
        requires
            w.task_id() < self.n_tasks(),
        ensures
            b == (self.comp(w.task_id() as int) is None),
    {
        self.tasks[w.task].computation.is_none()
    }

    /// Whether timer `j` has gone off.
    pub fn timer_is_complete(&self, j: usize) -> (b: bool)
        requires
            j < self.n_timers(),
        ensures
            b == self.timer(j as int).completed,
    {
        self.timers[j].completed
    }

    /// How many messages have been logged.
    pub fn log_len(&self) -> (n: usize)
        ensures
            n as int == self.log_view().len(),
    {
        self.log.len()
    }

    /// The `i`th logged message.
    pub fn log_at(&self, i: usize) -> (m: &String)
        requires
            i < self.log_view().len(),
        ensures
            m@ == self.log_view()[i as int],
    {
        &self.log[i]
    }
}

/// A task is never resumed more often than it has been enqueued: every
/// resume consumes one earlier `spawn` or `signal`, and the entries still
/// waiting on the queue account for the difference.
pub proof fn lemma_resumes_bounded_by_enqueues(e: &Executor, t: int)
    requires
        e.wf(),
        0 <= t < e.n_tasks(),
    ensures
        e.resumed(t) + e.queue_entries(t) <= e.enqueued(t),
        e.resumed(t) <= e.enqueued(t),
{
    assert(e.task_wf(t));
}

/// A computation with suspension budget `k` — it reports `Pending` `k` times
/// before completing — is resumed at most `k + 1` times, duplicate wakes
/// notwithstanding, and has been resumed exactly `k + 1` times once it has
/// completed.
pub proof fn lemma_suspension_budget(e: &Executor, t: int, k: nat)
    requires
        e.wf(),
        0 <= t < e.n_tasks(),
        e.limit(t) == Some(k),
    ensures
        e.resumed(t) <= k + 1,
        e.comp(t) is None ==> e.resumed(t) == k + 1,
        e.comp(t) is Some ==> e.resumed(t) <= k,
{
    assert(e.task_wf(t));
}

/// A timer reports completion only after its full duration has elapsed.
pub proof fn lemma_timer_completes_after_duration(e: &Executor, j: int)
    requires
        e.wf(),
        0 <= j < e.n_timers(),
        e.timer(j).completed,
    ensures
        e.time_now() >= e.timer(j).created + e.timer(j).duration,
{
    assert(e.timer_wf(j));
}

} // verus!
