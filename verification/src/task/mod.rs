//! Tasks: suspendable computations with an identifier of their own.
pub mod context;
pub mod executor;
pub mod keyboard;
pub mod queue;

use crate::task::context::{Context, ContextView, TASK_QUEUE_SIZE};
use crate::task::executor::{Executor, TaskWaker};
use crate::task::keyboard::{execute_keycode, ScancodeStream, SCANCODE_QUEUE_SIZE};
use vstd::prelude::*;

verus! {

/// The identifier of a task. Identifiers are issued in increasing order by a
/// [`TaskIdCounter`].
#[derive(Debug, Clone, Copy, PartialEq, Eq, Structural, PartialOrd, Ord, Hash)]
pub struct TaskId(u64);

impl View for TaskId {
    type V = u64;

    closed spec fn view(&self) -> u64 {
        self.0
    }
}

/// The counter that issues task identifiers. A kernel keeps exactly one.
pub struct TaskIdCounter {
    next: u64,
}

/// The counter value that follows `value`: one more, and zero after the
/// largest 64-bit value.
pub open spec fn next_after(value: u64) -> u64 {
    if value == u64::MAX {
        0u64
    } else {
        (value + 1) as u64
    }
}

/// The value of a counter that stood at `start`, after `count` identifiers
/// were issued.
pub open spec fn counter_after(start: u64, count: nat) -> u64
    decreases count,
{
    if count == 0 {
        start
    } else {
        next_after(counter_after(start, (count - 1) as nat))
    }
}

impl View for TaskIdCounter {
    type V = u64;

    /// The identifier that the counter issues next.
    closed spec fn view(&self) -> u64 {
        self.next
    }
}

impl TaskIdCounter {
    /// A counter that issues 0 first.
    pub fn new() -> (counter: TaskIdCounter)
        ensures
            counter@ == 0,
    {
        TaskIdCounter { next: 0 }
    }
}

impl TaskId {
    /// Issues a fresh identifier: the counter's value, which then moves on
    /// by one (wrapping at the 64-bit boundary).
    pub fn new(counter: &mut TaskIdCounter) -> (id: TaskId)
        ensures
            id@ == old(counter)@,
            final(counter)@ == next_after(old(counter)@),
    {
        let value: u64 = counter.next;
        if value == u64::MAX {
            counter.next = 0;
        } else {
            counter.next = value + 1;
        }
        TaskId(value)
    }

    /// The identifier with the given number, as a ready queue holds it.
    pub fn from_u64(value: u64) -> (id: TaskId)
        ensures
            id@ == value,
    {
        TaskId(value)
    }

    /// The identifier's number.
    pub fn as_u64(self) -> (value: u64)
        ensures
            value == self@,
    {
        self.0
    }
}

/// An identifier is its number: two identifiers with one number are equal.
pub broadcast proof fn lemma_task_id_by_number(a: TaskId, b: TaskId)
    ensures
        (#[trigger] a@ == #[trigger] b@) ==> a == b,
{
}

/// Identifiers come in strictly increasing order: of two identifiers issued
/// by one counter, the later is the greater, as long as the counter has not
/// wrapped.
pub proof fn lemma_ids_strictly_increase(start: u64, earlier: nat, later: nat)
    requires
        earlier < later,
        start + later <= u64::MAX,
    ensures
        counter_after(start, earlier) < counter_after(start, later),
        counter_after(start, later) == start + later,
    decreases later,
{
    lemma_counter_after_no_wrap(start, earlier);
    lemma_counter_after_no_wrap(start, later);
}

/// Until it wraps, a counter has moved on by the number of identifiers issued.
pub proof fn lemma_counter_after_no_wrap(start: u64, count: nat)
    requires
        start + count <= u64::MAX,
    ensures
        counter_after(start, count) == start + count,
    decreases count,
{
    if count > 0 {
        lemma_counter_after_no_wrap(start, (count - 1) as nat);
    }
}

/// What one step of a computation reports.
#[derive(Debug, PartialEq, Eq)]
pub enum Poll<T> {
    /// The computation has produced its value.
    Ready(T),
    /// The computation waits for a wake-up.
    Pending,
}

/// A suspendable computation: it advances one step at a time, and between
/// steps it waits to be woken.
///
/// The contract of `poll` is what the scheduler relies on, and it binds
/// whoever implements the trait. During a step a computation may wake tasks,
/// which appends to the ready queue, and use the scancode queue. It takes
/// nothing out of the ready queue, leaves alone the wake handle it was given
/// and the initialisation of the scancode queue, and leaves the context well
/// formed. It is proved of the computations of this crate; of one written
/// elsewhere it is taken on trust.
pub trait Computation {
    fn poll(&mut self, cx: &mut Context) -> (r: Poll<()>)
        requires
            old(cx).wf(),
            old(cx)@.waker is Some,
        ensures
            final(cx).wf(),
            final(cx)@.waker == old(cx)@.waker,
            final(cx)@.ready_capacity == old(cx)@.ready_capacity,
            old(cx)@.ready.is_prefix_of(final(cx)@.ready),
            old(cx)@.scancodes is Some ==> final(cx)@.scancodes is Some
                && final(cx)@.scancode_capacity == old(cx)@.scancode_capacity,
    ;
}

/// A computation together with its identifier.
pub struct Task {
    id: TaskId,
    future: Box<dyn Computation>,
    polls: Ghost<nat>,
}

impl Task {
    /// The identifier of the task.
    pub closed spec fn spec_id(&self) -> TaskId {
        self.id
    }

    /// The number of steps that the task has had its computation make.
    pub closed spec fn polls(&self) -> nat {
        self.polls@
    }

    /// Makes a task of a computation and gives it a fresh identifier.
    pub fn new(future: impl Computation + 'static, counter: &mut TaskIdCounter) -> (task: Task)
        ensures
            task.spec_id()@ == old(counter)@,
            task.polls() == 0,
            final(counter)@ == next_after(old(counter)@),
    {
        Task { id: TaskId::new(counter), future: Box::new(future), polls: Ghost(0) }
    }

    /// Advances the computation by one step and reports what the computation
    /// reports. Which of the two that is, the computation alone decides.
    /// Whatever it is, the computation has made one step more, the task
    /// keeps its identifier, and the context has changed only as
    /// [`Computation::poll`] allows. What becomes of the task for each report
    /// says [`Executor::finish_poll`].
    pub fn poll(&mut self, cx: &mut Context) -> (r: Poll<()>)
        requires
            old(cx).wf(),
            old(cx)@.waker is Some,
        ensures
            final(self).polls() == old(self).polls() + 1,
            final(self).spec_id() == old(self).spec_id(),
            final(cx).wf(),
            final(cx)@.waker == old(cx)@.waker,
            final(cx)@.ready_capacity == old(cx)@.ready_capacity,
            old(cx)@.ready.is_prefix_of(final(cx)@.ready),
            old(cx)@.scancodes is Some ==> final(cx)@.scancodes is Some
                && final(cx)@.scancode_capacity == old(cx)@.scancode_capacity,
    {
        let polled: Poll<()> = self.future.poll(cx);
        proof {
            self.polls = Ghost(self.polls@ + 1);
        }
        polled
    }

    #[verifier::when_used_as_spec(spec_id)]
    pub fn id(&self) -> (id: TaskId)
        ensures
            id == self.spec_id(),
    {
        self.id
    }
}

/// Sets the scheduler up: an executor and its context, with the scancode
/// queue initialised and its consumer spawned as the first task, ready to be
/// polled. What is left to the kernel is to drain the ready queue and to
/// idle, in turn and forever.
pub fn init_executor(counter: &mut TaskIdCounter) -> (r: (
    Executor,
    Context,
))
    ensures
        r.0.wf(&r.1),
        r.0.tasks().dom() == set![old(counter)@],
        r.0.tasks()[old(counter)@].polls() == 0,
        r.0.unpolled() == set![old(counter)@],
        r.0.wakers() == Map::<u64, TaskWaker>::empty(),
        r.1@ == (ContextView {
            waker: None,
            ready: seq![old(counter)@],
            ready_capacity: TASK_QUEUE_SIZE as nat,
            scancodes: Some(Seq::<u8>::empty()),
            scancode_capacity: SCANCODE_QUEUE_SIZE as nat,
            registered: None,
            delivered: Seq::<u8>::empty(),
        }),
        final(counter)@ == next_after(old(counter)@),
{
    let mut cx: Context = Context::new();
    let mut executor: Executor = Executor::new();
    let scancodes: ScancodeStream = ScancodeStream::new(&mut cx);
    let task: Task = Task::new(execute_keycode(scancodes), counter);
    executor.spawn(task, &mut cx);
    proof {
        assert(executor.tasks().dom() =~= set![old(counter)@]);
        assert(executor.unpolled() =~= set![old(counter)@]);
        assert(cx@.ready =~= seq![old(counter)@]);
    }
    (executor, cx)
}

} // verus!
