//! The executor: the table of live tasks, the ready queue and the wake handles.
use crate::task::context::{Context, ContextView};
use crate::task::{Poll, Task, TaskId};
use std::collections::BTreeMap;
use vstd::prelude::*;

verus! {

/// The capability to mark one task ready.
#[derive(Debug, Clone, Copy, PartialEq, Eq, Structural)]
pub struct TaskWaker {
    task_id: TaskId,
}

impl TaskWaker {
    /// The task that the handle wakes.
    pub closed spec fn spec_task_id(&self) -> TaskId {
        self.task_id
    }

    /// The wake handle of the given task.
    pub closed spec fn of(task_id: TaskId) -> TaskWaker {
        TaskWaker { task_id }
    }

    /// The wake handle of the given task.
    pub fn new(task_id: TaskId) -> (waker: TaskWaker)
        ensures
            waker == TaskWaker::of(task_id),
            waker.spec_task_id() == task_id,
    {
        TaskWaker { task_id }
    }

    #[verifier::when_used_as_spec(spec_task_id)]
    pub fn task_id(&self) -> (task_id: TaskId)
        ensures
            task_id == self.spec_task_id(),
    {
        self.task_id
    }

    /// Marks the task ready: its identifier goes to the back of the ready
    /// queue. The queue must have room; a wake-up is never dropped.
    pub fn wake_task(&self, cx: &mut Context)
        requires
            old(cx).wf(),
            old(cx)@.can_wake(),
        ensures
            final(cx).wf(),
            final(cx)@ == (ContextView {
                ready: old(cx)@.ready.push(self.spec_task_id()@),
                ..old(cx)@
            }),
    {
        cx.push_ready(self.task_id.as_u64());
    }
}

/// What one step of draining the ready queue did.
#[derive(Debug, Clone, Copy, PartialEq, Eq)]
pub enum Step {
    /// The ready queue was empty.
    Idle,
    /// The identifier taken from the queue names no live task: it was
    /// skipped.
    Stale(TaskId),
    /// The task was polled and waits for its next wake-up.
    Pending(TaskId),
    /// The task was polled, reported completion and was removed.
    Finished(TaskId),
}

impl Step {
    /// The number of the identifier that the step took from the ready queue.
    pub open spec fn id(self) -> Option<u64> {
        match self {
            Step::Idle => None,
            Step::Stale(id) => Some(id@),
            Step::Pending(id) => Some(id@),
            Step::Finished(id) => Some(id@),
        }
    }
}

/// Whether one of the first `count` steps of `trace` finished the task with
/// the identifier `id`.
pub open spec fn finished_within(trace: Seq<Step>, count: int, id: u64) -> bool {
    exists|j: int|
        0 <= j < count && j < trace.len() && (#[trigger] trace[j]) is Finished && trace[j].id()
            == Some(id)
}

/// The identifiers that the steps of a trace took from the ready queue, in
/// their order.
pub open spec fn taken(trace: Seq<Step>) -> Seq<u64> {
    Seq::new(
        trace.len(),
        |i: int|
            match trace[i].id() {
                Some(id) => id,
                None => 0u64,
            },
    )
}

/// The number of steps of a trace at which the task with the identifier `id`
/// was polled and went on waiting.
pub open spec fn pending_steps(trace: Seq<Step>, id: u64) -> nat
    decreases trace.len(),
{
    if trace.len() == 0 {
        0
    } else {
        pending_steps(trace.drop_last(), id) + (if trace.last() is Pending && trace.last().id()
            == Some(id) {
            1nat
        } else {
            0nat
        })
    }
}

/// One more step at the end of a trace counts if it polled the task and the
/// task went on waiting.
proof fn lemma_pending_steps_push(trace: Seq<Step>, step: Step, id: u64)
    ensures
        pending_steps(trace.push(step), id) == pending_steps(trace, id) + (if step is Pending
            && step.id() == Some(id) {
            1nat
        } else {
            0nat
        }),
{
    assert(trace.push(step).drop_last() =~= trace);
    assert(trace.push(step).last() == step);
}

/// One more step at the end of a trace adds its identifier to those taken.
proof fn lemma_taken_push(trace: Seq<Step>, step: Step)
    requires
        step.id() is Some,
    ensures
        taken(trace.push(step)) == taken(trace).push(step.id()->0),
{
    assert(taken(trace.push(step)) =~= taken(trace).push(step.id()->0));
}

/// What was taken, followed by what waits, goes on beginning with `start`
/// when the first that waits is taken and the queue grows at its end.
proof fn lemma_taken_extends(start: Seq<u64>, ids: Seq<u64>, ready: Seq<u64>, grown: Seq<u64>)
    requires
        ready.len() > 0,
        start.is_prefix_of(ids + ready),
        ready.drop_first().is_prefix_of(grown),
    ensures
        start.is_prefix_of(ids.push(ready[0]) + grown),
{
    let before = ids + ready;
    let after = ids.push(ready[0]) + grown;
    assert forall|i: int| 0 <= i < start.len() implies start[i] == after[i] by {
        assert(start[i] == before[i]);
        if i > ids.len() {
            assert(before[i] == ready.drop_first()[i - ids.len() - 1]);
            assert(grown[i - ids.len() - 1] == ready.drop_first()[i - ids.len() - 1]);
        }
    }
    assert(start =~= after.subrange(0, start.len() as int));
}

/// One more step at the end of a trace changes nothing for the steps before
/// it, and adds the task that it finished, if it finished one.
proof fn lemma_finished_within_push(trace: Seq<Step>, step: Step, count: int, id: u64)
    requires
        0 <= count <= trace.len(),
    ensures
        finished_within(trace.push(step), count, id) == finished_within(trace, count, id),
        finished_within(trace.push(step), trace.len() as int + 1, id) == (finished_within(trace, trace.len() as int, id) || (step is Finished && step.id() == Some(id))),
{
    let longer = trace.push(step);
    if finished_within(trace, count, id) {
        let j = choose|j: int|
            0 <= j < count && j < trace.len() && (#[trigger] trace[j]) is Finished && trace[j].id()
                == Some(id);
        assert(longer[j] == trace[j]);
    }
    if finished_within(longer, count, id) {
        let j = choose|j: int|
            0 <= j < count && j < longer.len() && (#[trigger] longer[j]) is Finished
                && longer[j].id() == Some(id);
        assert(longer[j] == trace[j]);
    }
    let whole = trace.len() as int;
    if finished_within(trace, whole, id) {
        let j = choose|j: int|
            0 <= j < whole && j < trace.len() && (#[trigger] trace[j]) is Finished && trace[j].id()
                == Some(id);
        assert(longer[j] == trace[j]);
    }
    if step is Finished && step.id() == Some(id) {
        assert(longer[whole] == step);
    }
    if finished_within(longer, whole + 1, id) {
        let j = choose|j: int|
            0 <= j < whole + 1 && j < longer.len() && (#[trigger] longer[j]) is Finished
                && longer[j].id() == Some(id);
        if j < whole {
            assert(longer[j] == trace[j]);
        } else {
            assert(longer[j] == step);
        }
    }
}

/// What the processor does after the idle check.
#[derive(Debug, Clone, Copy, PartialEq, Eq)]
pub enum IdleAction {
    /// No work is pending: enable interrupts and halt, in one indivisible
    /// step.
    Halt,
    /// Work is pending: enable interrupts and go on draining.
    Resume,
}

/// The table of live tasks and the cache of their wake handles. The ready
/// queue belongs to the [`Context`] that the executor is used with.
pub struct Executor {
    tasks: BTreeMap<u64, Task>,
    waker_cache: BTreeMap<u64, TaskWaker>,
    unpolled: Ghost<Set<u64>>,
    retired: Ghost<Map<u64, nat>>,
}

/// An element of a sequence other than its first is an element of the rest.
proof fn lemma_rest_contains(s: Seq<u64>, x: u64)
    requires
        s.contains(x),
        s.len() > 0,
        s[0] != x,
    ensures
        s.drop_first().contains(x),
{
    let i = choose|i: int| 0 <= i < s.len() && s[i] == x;
    assert(s.drop_first()[i - 1] == x);
}

/// An element of a prefix is an element of the whole.
proof fn lemma_prefix_contains(prefix: Seq<u64>, whole: Seq<u64>, x: u64)
    requires
        prefix.is_prefix_of(whole),
        prefix.contains(x),
    ensures
        whole.contains(x),
{
    let i = choose|i: int| 0 <= i < prefix.len() && prefix[i] == x;
    assert(whole[i] == x);
}

/// A sequence is a prefix of itself with one more element, which that
/// longer sequence contains.
proof fn lemma_push_extends(s: Seq<u64>, x: u64)
    ensures
        s.is_prefix_of(s.push(x)),
        s.push(x).contains(x),
{
    assert(s =~= s.push(x).subrange(0, s.len() as int));
    assert(s.push(x)[s.len() as int] == x);
}

impl Executor {
    /// The live tasks, each under the number of its identifier.
    pub closed spec fn tasks(&self) -> Map<u64, Task> {
        self.tasks@
    }

    /// The cached wake handles, each under the number of its task.
    pub closed spec fn wakers(&self) -> Map<u64, TaskWaker> {
        self.waker_cache@
    }

    /// The tasks that were spawned and have not been polled yet.
    pub closed spec fn unpolled(&self) -> Set<u64> {
        self.unpolled@
    }

    /// The tasks that have finished: under its identifier, the number of
    /// steps that the task of that identifier which finished last had made.
    pub closed spec fn retired(&self) -> Map<u64, nat> {
        self.retired@
    }

    /// The executor fits the context it is used with: every task stands
    /// under its own identifier, a wake handle is cached only for a live
    /// task, and a task that was never polled is live and in the ready queue.
    pub open spec fn wf(&self, cx: &Context) -> bool {
        &&& cx.wf()
        &&& self.tasks().dom().finite()
        &&& forall|id: u64|
            #![trigger self.tasks().contains_key(id)]
            self.tasks().contains_key(id) ==> self.tasks()[id].spec_id()@ == id
        &&& forall|id: u64|
            #![trigger self.wakers().contains_key(id)]
            self.wakers().contains_key(id) ==> self.tasks().contains_key(id)
                && self.wakers()[id].spec_task_id()@ == id
        &&& forall|id: u64|
            #![trigger self.unpolled().contains(id)]
            self.unpolled().contains(id) ==> self.tasks().contains_key(id) && cx@.ready.contains(id)
    }

    /// An executor without tasks.
    pub fn new() -> (executor: Executor)
        ensures
            executor.tasks() == Map::<u64, Task>::empty(),
            executor.wakers() == Map::<u64, TaskWaker>::empty(),
            executor.unpolled() == Set::<u64>::empty(),
            executor.retired() == Map::<u64, nat>::empty(),
    {
        broadcast use vstd::std_specs::btree::group_btree_axioms;

        Executor {
            tasks: BTreeMap::new(),
            waker_cache: BTreeMap::new(),
            unpolled: Ghost(Set::empty()),
            retired: Ghost(Map::empty()),
        }
    }

    /// Whether a task with this identifier is live.
    pub fn contains_task(&self, task_id: TaskId) -> (live: bool)
        ensures
            live == self.tasks().contains_key(task_id@),
    {
        broadcast use vstd::std_specs::btree::group_btree_axioms;

        let key: u64 = task_id.as_u64();
        self.tasks.contains_key(&key)
    }

    /// The number of live tasks.
    pub fn task_count(&self) -> (count: usize)
        ensures
            count == self.tasks().len(),
    {
        broadcast use vstd::std_specs::btree::group_btree_axioms;

        self.tasks.len()
    }

    /// The number of cached wake handles.
    pub fn waker_count(&self) -> (count: usize)
        ensures
            count == self.wakers().len(),
    {
        broadcast use vstd::std_specs::btree::group_btree_axioms;

        self.waker_cache.len()
    }

    /// Takes a task into the table and marks it ready, so that it is polled
    /// at least once. The task's identifier must be new to the table and the
    /// ready queue must have room.
    pub fn spawn(&mut self, task: Task, cx: &mut Context)
        requires
            old(self).wf(old(cx)),
            !old(self).tasks().contains_key(task.spec_id()@),
            old(cx)@.can_wake(),
        ensures
            final(self).wf(final(cx)),
            final(self).tasks() == old(self).tasks().insert(task.spec_id()@, task),
            final(self).tasks().len() == old(self).tasks().len() + 1,
            final(self).wakers() == old(self).wakers(),
            final(self).retired() == old(self).retired(),
            final(self).unpolled() == old(self).unpolled().insert(task.spec_id()@),
            final(cx)@ == (ContextView {
                ready: old(cx)@.ready.push(task.spec_id()@),
                ..old(cx)@
            }),
    {
        broadcast use vstd::std_specs::btree::group_btree_axioms;

        let key: u64 = task.id().as_u64();
        let ghost ready = cx@.ready;
        self.tasks.insert(key, task);
        cx.push_ready(key);
        proof {
            self.unpolled = Ghost(self.unpolled@.insert(key));
            lemma_push_extends(ready, key);
            assert forall|id: u64| #[trigger] self.wakers().contains_key(id) implies self.tasks().contains_key(id)
                && self.wakers()[id].spec_task_id()@ == id by {
                assert(old(self).wakers().contains_key(id));
            }
            assert forall|id: u64| #[trigger] self.unpolled().contains(id) implies self.tasks().contains_key(id)
                && cx@.ready.contains(id) by {
                if id != key {
                    assert(old(self).unpolled().contains(id));
                    lemma_prefix_contains(ready, cx@.ready, id);
                }
            }
        }
    }

    /// The idle check, to be made with interrupts disabled: the processor
    /// may halt exactly when the ready queue is empty.
    pub fn sleep_if_idle(&self, cx: &Context) -> (action: IdleAction)
        ensures
            action == (if cx@.ready.len() == 0 {
                IdleAction::Halt
            } else {
                IdleAction::Resume
            }),
    {
        if cx.is_ready_empty() {
            IdleAction::Halt
        } else {
            IdleAction::Resume
        }
    }

    /// One step of draining the ready queue: takes the oldest identifier,
    /// skips it if it names no live task, and otherwise polls the task with
    /// its cached wake handle, which is made on the first poll. A task that
    /// reports completion leaves the table and the cache together.
    pub fn run_next_ready(&mut self, cx: &mut Context) -> (step: Step)
        requires
            old(self).wf(old(cx)),
        ensures
            final(self).wf(final(cx)),
            final(cx)@.ready_capacity == old(cx)@.ready_capacity,
            !(step is Finished) ==> final(self).retired() == old(self).retired(),
            old(cx)@.ready.len() == 0 ==> {
                &&& step == Step::Idle
                &&& final(cx)@ == old(cx)@
                &&& final(self).tasks() == old(self).tasks()
                &&& final(self).wakers() == old(self).wakers()
                &&& final(self).unpolled() == old(self).unpolled()
            },
            old(cx)@.ready.len() > 0 && !old(self).tasks().contains_key(old(cx)@.ready[0]) ==> {
                &&& step matches Step::Stale(id) && id@ == old(cx)@.ready[0]
                &&& final(cx)@ == (ContextView { ready: old(cx)@.ready.drop_first(), ..old(cx)@ })
                &&& final(self).tasks() == old(self).tasks()
                &&& final(self).wakers() == old(self).wakers()
                &&& final(self).unpolled() == old(self).unpolled()
            },
            old(cx)@.ready.len() > 0 && old(self).tasks().contains_key(old(cx)@.ready[0]) ==> {
                &&& step is Pending || step is Finished
                &&& old(cx)@.ready.drop_first().is_prefix_of(final(cx)@.ready)
                &&& final(cx)@.waker == Some(TaskWaker::of(old(self).tasks()[old(cx)@.ready[0]].spec_id()))
                &&& old(cx)@.scancodes is Some ==> final(cx)@.scancodes is Some
                    && final(cx)@.scancode_capacity == old(cx)@.scancode_capacity
                &&& final(self).unpolled() == old(self).unpolled().remove(old(cx)@.ready[0])
            },
            step matches Step::Pending(id) ==> {
                &&& id@ == old(cx)@.ready[0]
                &&& final(self).tasks().dom() == old(self).tasks().dom()
                &&& final(self).tasks()[id@].polls() == old(self).tasks()[id@].polls() + 1
                &&& final(self).wakers() == old(self).wakers().insert(id@, TaskWaker::of(id))
            },
            step matches Step::Finished(id) ==> {
                &&& id@ == old(cx)@.ready[0]
                &&& final(self).tasks() == old(self).tasks().remove(id@)
                &&& final(self).wakers() == old(self).wakers().remove(id@)
                &&& final(self).retired() == old(self).retired().insert(id@, old(self).tasks()[id@].polls() + 1)
            },
            forall|other: u64|
                old(cx)@.ready.len() > 0 && other != old(cx)@.ready[0] && #[trigger] old(self).tasks().contains_key(other)
                    ==> final(self).tasks().contains_key(other) && final(self).tasks()[other] == old(self).tasks()[other],
    {
        broadcast use vstd::std_specs::btree::group_btree_axioms;
        broadcast use crate::task::lemma_task_id_by_number;

        let ghost ready = cx@.ready;
        let popped: Option<u64> = cx.pop_ready();
        match popped {
            None => Step::Idle,
            Some(key) => {
                let task_id: TaskId = TaskId::from_u64(key);
                match self.tasks.remove(&key) {
                    None => {
                        proof {
                            assert(self.tasks() =~= old(self).tasks());
                            assert forall|id: u64| #[trigger]
                                self.tasks().contains_key(id) implies self.tasks()[id].spec_id()@
                                == id by {
                                assert(old(self).tasks().contains_key(id));
                            }
                            assert forall|id: u64| #[trigger]
                                self.wakers().contains_key(id) implies self.tasks().contains_key(id)
                                && self.wakers()[id].spec_task_id()@ == id by {
                                assert(old(self).wakers().contains_key(id));
                            }
                            assert forall|id: u64| #[trigger]
                                self.unpolled().contains(id) implies self.tasks().contains_key(id)
                                && cx@.ready.contains(id) by {
                                assert(old(self).unpolled().contains(id));
                                lemma_rest_contains(ready, id);
                            }
                        }
                        Step::Stale(task_id)
                    },
                    Some(mut task) => {
                        let cached: Option<TaskWaker> = match self.waker_cache.get(&key) {
                            Some(waker) => Some(*waker),
                            None => None,
                        };
                        let waker: TaskWaker = match cached {
                            Some(waker) => waker,
                            None => {
                                let waker: TaskWaker = TaskWaker::new(task_id);
                                self.waker_cache.insert(key, waker);
                                waker
                            },
                        };
                        cx.set_waker(Some(waker));
                        proof {
                            assert(old(self).tasks().contains_key(key));
                            assert(task.spec_id()@ == key);
                            assert(self.wakers() =~= old(self).wakers().insert(key, waker)) by {
                                if old(self).wakers().contains_key(key) {
                                    assert(old(self).wakers()[key].spec_task_id()@ == key);
                                }
                            }
                        }
                        let ghost live_now = self.tasks();
                        let ghost cached_now = self.wakers();
                        let polled: Poll<()> = task.poll(cx);
                        let step: Step = self.finish_poll(task, polled);
                        proof {
                            assert(live_now =~= old(self).tasks().remove(key));
                            assert(step is Pending ==> self.tasks().dom() =~= old(self).tasks().dom());
                            assert(step is Pending ==> self.wakers() =~= old(self).wakers().insert(key, waker));
                            assert(step is Finished ==> self.tasks() =~= old(self).tasks().remove(key));
                            assert(step is Finished ==> self.wakers() =~= old(self).wakers().remove(key));
                            assert forall|id: u64| #[trigger]
                                self.tasks().contains_key(id) implies self.tasks()[id].spec_id()@
                                == id by {
                                if id != key {
                                    assert(live_now.contains_key(id));
                                    assert(old(self).tasks().contains_key(id));
                                }
                            }
                            assert forall|id: u64| #[trigger]
                                self.wakers().contains_key(id) implies self.tasks().contains_key(id)
                                && self.wakers()[id].spec_task_id()@ == id by {
                                assert(cached_now.contains_key(id));
                                if id != key {
                                    assert(old(self).wakers().contains_key(id));
                                    assert(live_now.contains_key(id));
                                }
                            }
                            assert forall|id: u64| #[trigger]
                                self.unpolled().contains(id) implies self.tasks().contains_key(id)
                                && cx@.ready.contains(id) by {
                                assert(old(self).unpolled().contains(id));
                                assert(live_now.contains_key(id));
                                lemma_rest_contains(ready, id);
                                lemma_prefix_contains(ready.drop_first(), cx@.ready, id);
                            }
                            assert forall|other: u64|
                                other != key && #[trigger] old(self).tasks().contains_key(other) implies self.tasks().contains_key(other) && self.tasks()[other] == old(self).tasks()[other] by {
                                assert(live_now.contains_key(other));
                            }
                        }
                        step
                    },
                }
            },
        }
    }

    /// Takes a task back after its poll, whatever the poll reported. A task
    /// that has completed leaves the table and the cache of wake handles in
    /// this one step; a task that waits goes back into the table under its
    /// identifier, and its cached wake handle stays. Either way the task
    /// counts as polled; of a task that has completed, the number of steps
    /// it made is kept.
    pub fn finish_poll(&mut self, task: Task, polled: Poll<()>) -> (step: Step)
        ensures
            final(self).unpolled() == old(self).unpolled().remove(task.spec_id()@),
            polled is Ready ==> {
                &&& step == Step::Finished(task.spec_id())
                &&& final(self).tasks() == old(self).tasks().remove(task.spec_id()@)
                &&& final(self).wakers() == old(self).wakers().remove(task.spec_id()@)
                &&& final(self).retired() == old(self).retired().insert(task.spec_id()@, task.polls())
            },
            polled is Pending ==> {
                &&& step == Step::Pending(task.spec_id())
                &&& final(self).tasks() == old(self).tasks().insert(task.spec_id()@, task)
                &&& final(self).wakers() == old(self).wakers()
                &&& final(self).retired() == old(self).retired()
            },
    {
        broadcast use vstd::std_specs::btree::group_btree_axioms;

        let task_id: TaskId = task.id();
        let key: u64 = task_id.as_u64();
        proof {
            self.unpolled = Ghost(self.unpolled@.remove(key));
        }
        match polled {
            Poll::Ready(()) => {
                proof {
                    self.retired = Ghost(self.retired@.insert(key, task.polls()));
                }
                self.tasks.remove(&key);
                self.waker_cache.remove(&key);
                Step::Finished(task_id)
            },
            Poll::Pending => {
                self.tasks.insert(key, task);
                Step::Pending(task_id)
            },
        }
    }

    /// Drains the ready queue: takes one identifier after the other out of
    /// the queue, oldest first, and polls its task if it is still live, until
    /// the queue is empty. Wake-ups that arrive while the queue is drained
    /// are drained too. (The count of steps is kept in a `usize`: a drain
    /// that has made `usize::MAX` steps ends where it is. A queue in which
    /// no identifier names a live task is always drained to the end.)
    ///
    /// The result tells what was done, step by step: the identifiers of the
    /// steps, followed by what is left in the queue, begin with what the
    /// queue held at the start, and a step skipped its identifier exactly if
    /// no task of that identifier was in the table or the task had finished
    /// at an earlier step. Every other step polled the task: a task that is
    /// still live has made as many steps more as the trace has steps for it,
    /// and a task that finished made one more. A wake handle is cached for
    /// exactly the live tasks that had one or were polled. Once the queue is
    /// empty, every task that was spawned has been polled at least once.
    pub fn run_ready_tasks(&mut self, cx: &mut Context) -> (trace: Ghost<Seq<Step>>)
        requires
            old(self).wf(old(cx)),
        ensures
            final(self).wf(final(cx)),
            final(cx)@.ready.len() == 0 || trace@.len() == usize::MAX,
            final(cx)@.ready.len() == 0 ==> final(self).unpolled() == Set::<u64>::empty(),
            (forall|i: int|
                0 <= i < old(cx)@.ready.len() ==> !old(self).tasks().contains_key(#[trigger] old(cx)@.ready[i])) ==> {
                &&& trace@.len() == old(cx)@.ready.len()
                &&& final(cx)@ == (ContextView { ready: Seq::<u64>::empty(), ..old(cx)@ })
                &&& final(self).tasks() == old(self).tasks()
                &&& final(self).wakers() == old(self).wakers()
                &&& final(self).retired() == old(self).retired()
            },
            old(cx)@.ready.is_prefix_of(taken(trace@) + final(cx)@.ready),
            forall|i: int| 0 <= i < trace@.len() ==> (#[trigger] trace@[i]).id() is Some,
            forall|i: int|
                0 <= i < trace@.len() ==> ((#[trigger] trace@[i]) is Stale <==> (!old(self).tasks().contains_key(taken(trace@)[i])
                    || finished_within(trace@, i, taken(trace@)[i]))),
            forall|id: u64|
                #![trigger final(self).tasks().contains_key(id)]
                final(self).tasks().contains_key(id) <==> old(self).tasks().contains_key(id)
                    && !finished_within(trace@, trace@.len() as int, id),
            forall|id: u64|
                #![trigger final(self).tasks()[id]]
                final(self).tasks().contains_key(id) ==> final(self).tasks()[id].polls() == old(self).tasks()[id].polls()
                    + pending_steps(trace@, id),
            forall|id: u64|
                #![trigger finished_within(trace@, trace@.len() as int, id)]
                old(self).tasks().contains_key(id) && finished_within(trace@, trace@.len() as int, id)
                    ==> final(self).retired().contains_key(id) && final(self).retired()[id] == old(self).tasks()[id].polls()
                    + pending_steps(trace@, id) + 1,
            forall|id: u64|
                #![trigger final(self).wakers().contains_key(id)]
                final(self).wakers().contains_key(id) <==> final(self).tasks().contains_key(id) && (old(self).wakers().contains_key(id)
                    || taken(trace@).contains(id)),
            forall|id: u64|
                #![trigger final(self).wakers()[id]]
                final(self).wakers().contains_key(id) ==> final(self).wakers()[id] == TaskWaker::of(final(self).tasks()[id].spec_id()),
            forall|id: u64|
                #![trigger old(self).tasks().contains_key(id)]
                old(self).tasks().contains_key(id) && !taken(trace@).contains(id)
                    ==> final(self).tasks().contains_key(id) && final(self).tasks()[id] == old(self).tasks()[id],
            old(cx)@.ready.len() == 0 ==> trace@.len() == 0 && final(cx)@ == old(cx)@ && final(self).tasks()
                == old(self).tasks() && final(self).wakers() == old(self).wakers(),
    {
        let ghost start = cx@.ready;
        let ghost all_stale = forall|i: int|
            0 <= i < start.len() ==> !old(self).tasks().contains_key(#[trigger] start[i]);
        let ghost mut steps: Seq<Step> = Seq::empty();
        let mut done: usize = 0;
        let mut idle: bool = cx.is_ready_empty();
        proof {
            assert(taken(steps) + cx@.ready =~= start);
            assert(start.skip(0) =~= start);
            assert forall|id: u64| #[trigger] self.wakers().contains_key(id) implies self.tasks().contains_key(id) by {}
        }
        while !idle && done < usize::MAX
            invariant
                self.wf(cx),
                old(self).wf(old(cx)),
                idle == (cx@.ready.len() == 0),
                start == old(cx)@.ready,
                all_stale == (forall|i: int|
                    0 <= i < start.len() ==> !old(self).tasks().contains_key(#[trigger] start[i])),
                all_stale ==> done <= start.len() && cx@ == (ContextView {
                    ready: start.skip(done as int),
                    ..old(cx)@
                }) && self.tasks() == old(self).tasks() && self.wakers() == old(self).wakers()
                    && self.retired() == old(self).retired(),
                start.is_prefix_of(taken(steps) + cx@.ready),
                steps.len() == done,
                forall|i: int| 0 <= i < done ==> (#[trigger] steps[i]).id() is Some,
                forall|i: int|
                    0 <= i < done ==> ((#[trigger] steps[i]) is Stale <==> (!old(self).tasks().contains_key(taken(steps)[i])
                        || finished_within(steps, i, taken(steps)[i]))),
                forall|id: u64|
                    #![trigger self.tasks().contains_key(id)]
                    self.tasks().contains_key(id) <==> old(self).tasks().contains_key(id)
                        && !finished_within(steps, done as int, id),
                forall|id: u64|
                    #![trigger self.tasks()[id]]
                    self.tasks().contains_key(id) ==> self.tasks()[id].polls() == old(self).tasks()[id].polls()
                        + pending_steps(steps, id),
                forall|id: u64|
                    #![trigger finished_within(steps, done as int, id)]
                    old(self).tasks().contains_key(id) && finished_within(steps, done as int, id)
                        ==> self.retired().contains_key(id) && self.retired()[id] == old(self).tasks()[id].polls()
                        + pending_steps(steps, id) + 1,
                forall|id: u64|
                    #![trigger self.wakers().contains_key(id)]
                    self.wakers().contains_key(id) <==> self.tasks().contains_key(id) && (old(self).wakers().contains_key(id)
                        || taken(steps).contains(id)),
                forall|id: u64|
                    #![trigger old(self).tasks().contains_key(id)]
                    old(self).tasks().contains_key(id) && !taken(steps).contains(id)
                        ==> self.tasks().contains_key(id) && self.tasks()[id] == old(self).tasks()[id],
                done == 0 ==> cx@ == old(cx)@ && self.tasks() == old(self).tasks() && self.wakers()
                    == old(self).wakers(),
                start.len() == 0 ==> done == 0,
            decreases usize::MAX - done,
        {
            let ghost ready = cx@.ready;
            let ghost live = self.tasks();
            let ghost cached = self.wakers();
            let ghost gone = self.retired();
            let ghost earlier = steps;
            let step: Step = self.run_next_ready(cx);
            proof {
                steps = earlier.push(step);
                let key = ready[0];
                assert(step.id() == Some(key));
                lemma_taken_push(earlier, step);
                lemma_taken_extends(start, taken(earlier), ready, cx@.ready);
                assert(taken(steps)[done as int] == key);
                if all_stale {
                    assert(ready == start.skip(done as int));
                    assert(done < start.len());
                    assert(key == start[done as int]);
                    assert(!live.contains_key(key));
                    assert(ready.drop_first() =~= start.skip(done + 1));
                }
                assert forall|i: int| 0 <= i < done + 1 implies (#[trigger] steps[i]).id() is Some by {
                    if i < done {
                        assert(steps[i] == earlier[i]);
                    }
                }
                assert forall|i: int| 0 <= i < done + 1 implies ((#[trigger] steps[i]) is Stale <==> (
                !old(self).tasks().contains_key(taken(steps)[i]) || finished_within(steps, i, taken(steps)[i]))) by {
                    lemma_finished_within_push(earlier, step, i, taken(steps)[i]);
                    if i < done {
                        assert(steps[i] == earlier[i]);
                        assert(taken(steps)[i] == taken(earlier)[i]);
                    } else {
                        assert(taken(steps)[i] == key);
                        assert(live.contains_key(key) <==> old(self).tasks().contains_key(key)
                            && !finished_within(earlier, done as int, key));
                    }
                }
                assert forall|id: u64|
                    #![trigger self.tasks().contains_key(id)]
                    self.tasks().contains_key(id) <==> old(self).tasks().contains_key(id)
                        && !finished_within(steps, done + 1, id) by {
                    lemma_finished_within_push(earlier, step, done as int, id);
                    assert(live.contains_key(id) <==> old(self).tasks().contains_key(id)
                        && !finished_within(earlier, done as int, id));
                    if id != key && live.contains_key(id) {
                        assert(self.tasks().contains_key(id));
                    }
                }
                assert forall|id: u64|
                    #![trigger self.tasks()[id]]
                    self.tasks().contains_key(id) implies self.tasks()[id].polls() == old(self).tasks()[id].polls()
                        + pending_steps(steps, id) by {
                    lemma_pending_steps_push(earlier, step, id);
                    assert(live.contains_key(id));
                    assert(live[id].polls() == old(self).tasks()[id].polls() + pending_steps(earlier, id));
                    if id != key {
                        assert(self.tasks()[id] == live[id]);
                    }
                }
                assert forall|id: u64|
                    #![trigger finished_within(steps, done + 1, id)]
                    old(self).tasks().contains_key(id) && finished_within(steps, done + 1, id)
                        implies self.retired().contains_key(id) && self.retired()[id] == old(self).tasks()[id].polls()
                        + pending_steps(steps, id) + 1 by {
                    lemma_finished_within_push(earlier, step, done as int, id);
                    lemma_pending_steps_push(earlier, step, id);
                    assert(live.contains_key(id) <==> old(self).tasks().contains_key(id)
                        && !finished_within(earlier, done as int, id));
                    if finished_within(earlier, done as int, id) {
                        assert(!live.contains_key(id));
                        assert(gone.contains_key(id) && gone[id] == old(self).tasks()[id].polls()
                            + pending_steps(earlier, id) + 1);
                    } else {
                        assert(live.contains_key(id));
                        assert(live[id].polls() == old(self).tasks()[id].polls() + pending_steps(earlier, id));
                    }
                }
                assert forall|id: u64|
                    #![trigger self.wakers().contains_key(id)]
                    self.wakers().contains_key(id) <==> self.tasks().contains_key(id) && (old(self).wakers().contains_key(id)
                        || taken(steps).contains(id)) by {
                    assert(cached.contains_key(id) <==> live.contains_key(id) && (old(self).wakers().contains_key(id)
                        || taken(earlier).contains(id)));
                    if taken(earlier).contains(id) {
                        let j = choose|j: int| 0 <= j < taken(earlier).len() && taken(earlier)[j] == id;
                        assert(taken(steps)[j] == id);
                    }
                    if taken(steps).contains(id) && id != key {
                        let j = choose|j: int| 0 <= j < taken(steps).len() && taken(steps)[j] == id;
                        assert(j < done);
                        assert(taken(earlier)[j] == id);
                    }
                    if id != key {
                        if live.contains_key(id) {
                            assert(self.tasks().contains_key(id));
                        }
                    }
                }
                assert forall|id: u64|
                    #![trigger old(self).tasks().contains_key(id)]
                    old(self).tasks().contains_key(id) && !taken(steps).contains(id) implies self.tasks().contains_key(id) && self.tasks()[id] == old(self).tasks()[id] by {
                    assert(id != key);
                    if taken(earlier).contains(id) {
                        let j = choose|j: int| 0 <= j < taken(earlier).len() && taken(earlier)[j] == id;
                        assert(taken(steps)[j] == id);
                    }
                    assert(live.contains_key(id) && live[id] == old(self).tasks()[id]);
                }
            }
            done = done + 1;
            idle = cx.is_ready_empty();
        }
        proof {
            broadcast use crate::task::lemma_task_id_by_number;

            if cx@.ready.len() == 0 {
                self.lemma_idle_means_all_polled(cx);
            }
            assert forall|id: u64|
                #![trigger self.wakers()[id]]
                self.wakers().contains_key(id) implies self.wakers()[id] == TaskWaker::of(
                self.tasks()[id].spec_id(),
            ) by {
                assert(self.tasks().contains_key(id));
            }
            if all_stale {
                assert(start.len() <= 100);
                assert(cx@.ready.len() == 0);
                assert(cx@.ready =~= Seq::<u64>::empty());
            }
        }
        Ghost(steps)
    }

    /// Before the processor may halt, every spawned task has been polled at
    /// least once: with an empty ready queue no task is left that was never
    /// polled.
    pub proof fn lemma_idle_means_all_polled(&self, cx: &Context)
        requires
            self.wf(cx),
            cx@.ready.len() == 0,
        ensures
            self.unpolled() == Set::<u64>::empty(),
    {
        assert forall|id: u64| !self.unpolled().contains(id) by {
            if self.unpolled().contains(id) {
                assert(cx@.ready.contains(id));
            }
        }
        assert(self.unpolled() =~= Set::<u64>::empty());
    }

    /// No identifier stands in the table twice: two entries of the table
    /// hold tasks with different identifiers.
    pub proof fn lemma_task_ids_unique(&self, cx: &Context, first: u64, second: u64)
        requires
            self.wf(cx),
            self.tasks().contains_key(first),
            self.tasks().contains_key(second),
            first != second,
        ensures
            self.tasks()[first].spec_id() != self.tasks()[second].spec_id(),
            self.tasks()[first].spec_id()@ == first,
    {
    }

    /// The cache never outlives the table: a wake handle is cached only for
    /// a task that is live, so a task that has left the table has left the
    /// cache too.
    pub proof fn lemma_cache_within_table(&self, cx: &Context)
        requires
            self.wf(cx),
        ensures
            self.wakers().dom().subset_of(self.tasks().dom()),
            self.unpolled().subset_of(self.tasks().dom()),
    {
        assert forall|id: u64| self.wakers().dom().contains(id) implies self.tasks().dom().contains(id) by {
            assert(self.wakers().contains_key(id));
        }
    }
}

impl Default for Executor {
    /// An executor without tasks.
    fn default() -> (executor: Executor)
        ensures
            executor.tasks() == Map::<u64, Task>::empty(),
            executor.wakers() == Map::<u64, TaskWaker>::empty(),
            executor.unpolled() == Set::<u64>::empty(),
            executor.retired() == Map::<u64, nat>::empty(),
    {
        Executor::new()
    }
}

} // verus!
