//! The scancode queue: filled by the keyboard interrupt handler, drained by
//! one consumer task that sleeps while the queue is empty.
use crate::task::context::{Context, ContextView};
use crate::task::executor::TaskWaker;
use crate::task::{Computation, Poll};
use vstd::prelude::*;

verus! {

/// The capacity of the scancode queue.
pub const SCANCODE_QUEUE_SIZE: usize = 100;

/// What became of a submitted scancode.
#[derive(Debug, Clone, Copy, PartialEq, Eq)]
pub enum Submitted {
    /// The scancode is in the queue.
    Queued,
    /// The queue was full: the scancode is lost, which deserves a warning.
    Dropped,
}

/// What a submitted scancode comes to in the given state, whose scancode
/// queue is initialised.
pub open spec fn submit_outcome(cx: ContextView) -> Submitted {
    if cx.scancodes->0.len() < cx.scancode_capacity {
        Submitted::Queued
    } else {
        Submitted::Dropped
    }
}

/// The ready queue after the registered consumer, if there is one, was woken.
pub open spec fn woken(cx: ContextView) -> Seq<u64> {
    match cx.registered {
        Some(waker) => cx.ready.push(waker.spec_task_id()@),
        None => cx.ready,
    }
}

/// The state after a scancode was submitted to an initialised queue: a
/// queue with room takes it at its back, a full queue stays as it is.
/// Either way the consumer that had registered is woken and leaves the slot.
pub open spec fn after_submit(cx: ContextView, scancode: u8) -> ContextView {
    ContextView {
        scancodes: Some(
            match submit_outcome(cx) {
                Submitted::Queued => cx.scancodes->0.push(scancode),
                Submitted::Dropped => cx.scancodes->0,
            },
        ),
        registered: None,
        ready: woken(cx),
        ..cx
    }
}

/// Whether the wake-up that a submitted scancode causes fits into the ready
/// queue.
pub open spec fn submit_fits(cx: ContextView) -> bool {
    cx.registered is Some ==> cx.can_wake()
}

/// The scancode that a consumer finds: the oldest in the queue.
pub open spec fn next_scancode(cx: ContextView) -> Option<u8> {
    match cx.scancodes {
        Some(bytes) => if bytes.len() > 0 {
            Some(bytes[0])
        } else {
            None
        },
        None => None,
    }
}

/// The state after the consumer looked for a scancode: the oldest one has
/// left the queue.
pub open spec fn after_take(cx: ContextView) -> ContextView {
    match next_scancode(cx) {
        Some(_) => ContextView { scancodes: Some(cx.scancodes->0.drop_first()), ..cx },
        None => cx,
    }
}

/// The state after the consumer registered its wake handle.
pub open spec fn after_register(cx: ContextView, waker: TaskWaker) -> ContextView {
    ContextView { registered: Some(waker), ..cx }
}

/// The state after the consumer looked again, having registered: a scancode
/// that has arrived leaves the queue, and the registration is withdrawn.
pub open spec fn after_recheck(cx: ContextView) -> ContextView {
    match next_scancode(cx) {
        Some(_) => ContextView {
            scancodes: Some(cx.scancodes->0.drop_first()),
            registered: None,
            ..cx
        },
        None => cx,
    }
}

/// What one poll of the consumer gives when nothing is submitted while it
/// runs.
pub open spec fn after_poll_next(cx: ContextView) -> ContextView {
    match next_scancode(cx) {
        Some(_) => after_take(cx),
        None => ContextView { registered: cx.waker, ..cx },
    }
}

/// Whether a scancode can be submitted now: whether the wake-up that it
/// causes fits into the ready queue.
pub fn can_add_scancode(cx: &Context) -> (fits: bool)
    requires
        cx.wf(),
    ensures
        fits == submit_fits(cx@),
{
    cx.registered().is_none() || !cx.is_task_queue_full()
}

/// Submits one raw scancode, as the keyboard interrupt handler does: the
/// byte goes into the queue, or is dropped and reported if the queue is
/// full, and then the consumer that has registered is woken, whatever became
/// of the byte. The queue must be initialised.
pub fn add_scancode(cx: &mut Context, scancode: u8) -> (outcome: Submitted)
    requires
        old(cx).wf(),
        old(cx)@.scancodes is Some,
        submit_fits(old(cx)@),
    ensures
        final(cx).wf(),
        outcome == submit_outcome(old(cx)@),
        final(cx)@ == after_submit(old(cx)@, scancode),
{
    let queued: bool = cx.push_scancode(scancode);
    match cx.take_registered() {
        Some(waker) => {
            waker.wake_task(cx);
        },
        None => {},
    }
    if queued {
        Submitted::Queued
    } else {
        Submitted::Dropped
    }
}

/// The consumer's end of the scancode queue.
pub struct ScancodeStream {
    _private: (),
}

impl ScancodeStream {
    /// Initialises the scancode queue, which must not have been initialised
    /// before, and hands out its consumer end.
    pub fn new(cx: &mut Context) -> (stream: ScancodeStream)
        requires
            old(cx).wf(),
            old(cx)@.scancodes is None,
        ensures
            final(cx).wf(),
            final(cx)@ == (ContextView {
                scancodes: Some(Seq::<u8>::empty()),
                scancode_capacity: SCANCODE_QUEUE_SIZE as nat,
                ..old(cx)@
            }),
    {
        cx.init_scancodes();
        ScancodeStream { _private: () }
    }

    /// The fast path of a poll: takes the oldest scancode if there is one,
    /// and leaves the slot of the waiting consumer alone.
    pub fn try_next(&mut self, cx: &mut Context) -> (scancode: Option<u8>)
        requires
            old(cx).wf(),
            old(cx)@.scancodes is Some,
        ensures
            final(cx).wf(),
            scancode == next_scancode(old(cx)@),
            final(cx)@ == after_take(old(cx)@),
    {
        cx.pop_scancode()
    }

    /// Registers a wake handle for the next scancode, in place of whatever
    /// was registered.
    pub fn register(&mut self, cx: &mut Context, waker: TaskWaker)
        ensures
            final(cx)@ == after_register(old(cx)@, waker),
    {
        cx.register(waker);
    }

    /// Looks again after registering. A scancode that arrived in between is
    /// taken and the registration withdrawn; otherwise the consumer has to
    /// wait, and its registration stands.
    pub fn recheck(&mut self, cx: &mut Context) -> (r: Poll<Option<u8>>)
        requires
            old(cx).wf(),
            old(cx)@.scancodes is Some,
        ensures
            final(cx).wf(),
            final(cx)@ == after_recheck(old(cx)@),
            r == (match next_scancode(old(cx)@) {
                Some(scancode) => Poll::Ready(Some(scancode)),
                None => Poll::Pending,
            }),
    {
        match cx.pop_scancode() {
            Some(scancode) => {
                let _ = cx.take_registered();
                Poll::Ready(Some(scancode))
            },
            None => Poll::Pending,
        }
    }

    /// Polls for the next scancode on behalf of the task that is being
    /// polled: a scancode that waits is handed out at once; otherwise the
    /// task's wake handle is registered first and the queue checked again.
    pub fn poll_next(&mut self, cx: &mut Context) -> (r: Poll<Option<u8>>)
        requires
            old(cx).wf(),
            old(cx)@.scancodes is Some,
            old(cx)@.waker is Some,
        ensures
            final(cx).wf(),
            final(cx)@ == after_poll_next(old(cx)@),
            r == (match next_scancode(old(cx)@) {
                Some(scancode) => Poll::Ready(Some(scancode)),
                None => Poll::Pending,
            }),
    {
        match self.try_next(cx) {
            Some(scancode) => Poll::Ready(Some(scancode)),
            None => {
                match cx.waker() {
                    Some(waker) => {
                        self.register(cx, waker);
                    },
                    None => {},
                }
                self.recheck(cx)
            },
        }
    }
}

/// The task that consumes scancodes for as long as the kernel runs.
pub struct KeycodeConsumer {
    scancodes: ScancodeStream,
}

/// The consumer task: on every poll it takes the scancodes that wait out of
/// the queue, hands them over to the kernel, oldest first, and then waits
/// for more.
pub fn execute_keycode(scancodes: ScancodeStream) -> (consumer: KeycodeConsumer) {
    KeycodeConsumer { scancodes }
}

impl Computation for KeycodeConsumer {
    /// Hands the scancodes that wait over to the kernel, oldest first, and
    /// reports `Pending` with the queue empty and the task's wake handle
    /// registered. In a context whose scancode queue is not initialised,
    /// which is not the one that the consumer's end of the queue was made
    /// in, the consumer finishes and touches nothing.
    fn poll(&mut self, cx: &mut Context) -> (r: Poll<()>)
        ensures
            old(cx)@.scancodes is None ==> r == Poll::Ready(()) && final(cx)@ == old(cx)@,
            old(cx)@.scancodes is Some ==> {
                &&& r == Poll::<()>::Pending
                &&& final(cx)@ == (ContextView {
                    scancodes: Some(Seq::<u8>::empty()),
                    registered: old(cx)@.waker,
                    delivered: old(cx)@.delivered + old(cx)@.scancodes->0,
                    ..old(cx)@
                })
            },
    {
        if !cx.is_scancode_queue_initialized() {
            return Poll::Ready(());
        }
        let ghost start = cx@;
        let mut waiting: bool = false;
        proof {
            assert(start.delivered + start.scancodes->0 =~= cx@.delivered + cx@.scancodes->0);
        }
        while !waiting
            invariant
                cx.wf(),
                start.scancodes is Some,
                cx@.scancodes is Some,
                cx@.waker is Some,
                cx@.delivered + cx@.scancodes->0 == start.delivered + start.scancodes->0,
                !waiting ==> cx@ == (ContextView {
                    scancodes: cx@.scancodes,
                    delivered: cx@.delivered,
                    ..start
                }),
                waiting ==> cx@ == (ContextView {
                    scancodes: Some(Seq::<u8>::empty()),
                    registered: start.waker,
                    delivered: cx@.delivered,
                    ..start
                }),
            decreases cx@.scancodes->0.len() + (if waiting { 0int } else { 1int }),
        {
            let ghost before = cx@.scancodes->0;
            let ghost got = cx@.delivered;
            match self.scancodes.poll_next(cx) {
                Poll::Ready(Some(scancode)) => {
                    cx.deliver(scancode);
                    proof {
                        assert(before =~= seq![scancode] + before.drop_first());
                        assert(got.push(scancode) + before.drop_first() =~= got + before);
                    }
                },
                Poll::Ready(None) => {
                    waiting = true;
                },
                Poll::Pending => {
                    assert(cx@.scancodes->0 =~= Seq::<u8>::empty());
                    waiting = true;
                },
            }
        }
        proof {
            assert(cx@.delivered =~= start.delivered + start.scancodes->0);
        }
        Poll::Pending
    }
}

/// The state after a run of submissions, made one after the other.
pub open spec fn after_submit_all(cx: ContextView, scancodes: Seq<u8>) -> ContextView
    decreases scancodes.len(),
{
    if scancodes.len() == 0 {
        cx
    } else {
        after_submit(after_submit_all(cx, scancodes.drop_last()), scancodes.last())
    }
}

/// What a queue of the given capacity holds after a run of submissions: what
/// it held, then the submitted scancodes in their order, as far as they fit.
/// What does not fit is the newest.
pub open spec fn kept(queue: Seq<u8>, capacity: nat, scancodes: Seq<u8>) -> Seq<u8> {
    let all = queue + scancodes;
    if all.len() <= capacity {
        all
    } else {
        all.take(capacity as int)
    }
}

/// The state after the consumer took scancodes `count` times.
pub open spec fn after_take_all(cx: ContextView, count: nat) -> ContextView
    decreases count,
{
    if count == 0 {
        cx
    } else {
        after_take(after_take_all(cx, (count - 1) as nat))
    }
}

/// The scancodes that the consumer got from taking `count` times, in the
/// order in which it got them.
pub open spec fn taken(cx: ContextView, count: nat) -> Seq<u8>
    decreases count,
{
    if count == 0 {
        Seq::<u8>::empty()
    } else {
        let earlier = taken(cx, (count - 1) as nat);
        match next_scancode(after_take_all(cx, (count - 1) as nat)) {
            Some(scancode) => earlier.push(scancode),
            None => earlier,
        }
    }
}

/// A run of submissions appends to the queue in order and drops only what
/// does not fit. The first scancode submitted wakes the registered consumer,
/// once; nothing else changes.
pub proof fn lemma_after_submit_all(cx: ContextView, scancodes: Seq<u8>)
    requires
        cx.scancodes is Some,
        cx.scancodes->0.len() <= cx.scancode_capacity,
    ensures
        ({
            let end = after_submit_all(cx, scancodes);
            &&& end.scancodes == Some(kept(cx.scancodes->0, cx.scancode_capacity, scancodes))
            &&& end.scancode_capacity == cx.scancode_capacity
            &&& end.ready_capacity == cx.ready_capacity
            &&& end.waker == cx.waker
            &&& scancodes.len() > 0 ==> end.registered is None && end.ready == woken(cx)
            &&& scancodes.len() == 0 ==> end == cx
        }),
    decreases scancodes.len(),
{
    let queue = cx.scancodes->0;
    let capacity = cx.scancode_capacity;
    if scancodes.len() == 0 {
        assert(queue + scancodes =~= queue);
    } else {
        let earlier = scancodes.drop_last();
        lemma_after_submit_all(cx, earlier);
        assert(queue + scancodes =~= (queue + earlier).push(scancodes.last()));
        if (queue + earlier).len() < capacity {
            assert(kept(queue, capacity, earlier) == queue + earlier);
            assert(kept(queue, capacity, scancodes) == queue + scancodes);
        } else {
            assert(kept(queue, capacity, earlier) =~= (queue + earlier).take(capacity as int));
            assert(kept(queue, capacity, scancodes) =~= (queue + earlier).take(capacity as int));
        }
    }
}

/// No wake-up is lost: once the consumer has registered and found the queue
/// empty, the next submission wakes it. However many scancodes follow, the
/// consumer's identifier is in the ready queue, the slot is free again, and
/// the first scancode submitted is the next one it gets.
pub proof fn lemma_submission_wakes_waiting_consumer(
    cx: ContextView,
    waker: TaskWaker,
    scancodes: Seq<u8>,
)
    requires
        cx.wf(),
        cx.scancodes == Some(Seq::<u8>::empty()),
        cx.registered == Some(waker),
        scancodes.len() > 0,
    ensures
        after_submit_all(cx, scancodes).ready == cx.ready.push(waker.spec_task_id()@),
        after_submit_all(cx, scancodes).registered is None,
        next_scancode(after_submit_all(cx, scancodes)) == Some(scancodes[0]),
{
    lemma_after_submit_all(cx, scancodes);
    assert((Seq::<u8>::empty() + scancodes)[0] == scancodes[0]);
}

/// A poll misses no submission, wherever it falls around the registration.
/// The fast path found the queue empty; `before` is submitted before the
/// consumer registers and `between` after that, before it looks again. If
/// anything was submitted, looking again finds the first scancode, so the
/// consumer does not go to sleep on a queue that holds data; if nothing was,
/// it waits with its registration in place.
pub proof fn lemma_poll_sees_every_submission(
    cx: ContextView,
    waker: TaskWaker,
    before: Seq<u8>,
    between: Seq<u8>,
)
    requires
        cx.wf(),
        cx.scancodes == Some(Seq::<u8>::empty()),
    ensures
        ({
            let at_register = after_register(after_submit_all(cx, before), waker);
            let at_recheck = after_submit_all(at_register, between);
            let arrived = before + between;
            &&& at_recheck.scancodes == Some(kept(Seq::<u8>::empty(), cx.scancode_capacity, arrived))
            &&& arrived.len() > 0 ==> next_scancode(at_recheck) == Some(arrived[0])
                && after_recheck(at_recheck).registered is None
            &&& arrived.len() == 0 ==> next_scancode(at_recheck) is None && after_recheck(at_recheck).registered == Some(waker)
        }),
{
    let capacity = cx.scancode_capacity;
    let empty = Seq::<u8>::empty();
    lemma_after_submit_all(cx, before);
    let at_register = after_register(after_submit_all(cx, before), waker);
    lemma_after_submit_all(at_register, between);
    let held = kept(empty, capacity, before);
    assert(empty + before =~= before);
    assert(empty + (before + between) =~= before + between);
    assert(kept(held, capacity, between) =~= kept(empty, capacity, before + between));
    if (before + between).len() > 0 {
        assert(kept(empty, capacity, before + between)[0] == (before + between)[0]);
    }
}

/// The consumer gets every scancode exactly once and in the order of
/// submission: taking `count` times from a queue gives its first `count`
/// scancodes, oldest first, and leaves the rest.
pub proof fn lemma_taken_in_order(cx: ContextView, count: nat)
    requires
        cx.scancodes is Some,
        count <= cx.scancodes->0.len(),
    ensures
        taken(cx, count) == cx.scancodes->0.take(count as int),
        after_take_all(cx, count) == (ContextView {
            scancodes: Some(cx.scancodes->0.skip(count as int)),
            ..cx
        }),
    decreases count,
{
    let queue = cx.scancodes->0;
    if count == 0 {
        assert(queue.take(0) =~= Seq::<u8>::empty());
        assert(queue.skip(0) =~= queue);
    } else {
        lemma_taken_in_order(cx, (count - 1) as nat);
        let mid = after_take_all(cx, (count - 1) as nat);
        assert(mid.scancodes->0[0] == queue[count - 1]);
        assert(queue.skip(count - 1).drop_first() =~= queue.skip(count as int));
        assert(queue.take(count - 1).push(queue[count - 1]) =~= queue.take(count as int));
    }
}

/// One step of the producer or of the consumer. The steps of both may come
/// in any order.
pub enum ChannelEvent {
    /// The interrupt handler submits a scancode.
    Submit(u8),
    /// The consumer takes the fast path of a poll.
    TryNext,
    /// The consumer registers a wake handle.
    Register(TaskWaker),
    /// The consumer looks again after registering.
    Recheck,
}

/// The state after one event.
pub open spec fn after_event(cx: ContextView, event: ChannelEvent) -> ContextView {
    match event {
        ChannelEvent::Submit(scancode) => after_submit(cx, scancode),
        ChannelEvent::TryNext => after_take(cx),
        ChannelEvent::Register(waker) => after_register(cx, waker),
        ChannelEvent::Recheck => after_recheck(cx),
    }
}

/// The state after a run of events.
pub open spec fn after_events(cx: ContextView, events: Seq<ChannelEvent>) -> ContextView
    decreases events.len(),
{
    if events.len() == 0 {
        cx
    } else {
        after_event(after_events(cx, events.drop_last()), events.last())
    }
}

/// What an event adds to the queue: a submitted scancode that the queue has
/// room for.
pub open spec fn queued_by(cx: ContextView, event: ChannelEvent) -> Seq<u8> {
    match event {
        ChannelEvent::Submit(scancode) => if submit_outcome(cx) == Submitted::Queued {
            seq![scancode]
        } else {
            Seq::<u8>::empty()
        },
        _ => Seq::<u8>::empty(),
    }
}

/// What an event hands to the consumer: the scancode that a look at the
/// queue finds.
pub open spec fn observed_by(cx: ContextView, event: ChannelEvent) -> Seq<u8> {
    match event {
        ChannelEvent::TryNext | ChannelEvent::Recheck => match next_scancode(cx) {
            Some(scancode) => seq![scancode],
            None => Seq::<u8>::empty(),
        },
        _ => Seq::<u8>::empty(),
    }
}

/// The scancodes that a run of events adds to the queue, in their order.
pub open spec fn queued(cx: ContextView, events: Seq<ChannelEvent>) -> Seq<u8>
    decreases events.len(),
{
    if events.len() == 0 {
        Seq::<u8>::empty()
    } else {
        queued(cx, events.drop_last()) + queued_by(after_events(cx, events.drop_last()), events.last())
    }
}

/// The scancodes that a run of events hands to the consumer, in their order.
pub open spec fn observed(cx: ContextView, events: Seq<ChannelEvent>) -> Seq<u8>
    decreases events.len(),
{
    if events.len() == 0 {
        Seq::<u8>::empty()
    } else {
        observed(cx, events.drop_last()) + observed_by(after_events(cx, events.drop_last()), events.last())
    }
}

/// However the steps of the producer and of the consumer interleave, the
/// consumer gets every scancode that the queue accepted exactly once and in
/// the order of submission: what was in the queue, followed by what was
/// added, is what the consumer got, followed by what still waits.
pub proof fn lemma_every_scancode_once_in_order(cx: ContextView, events: Seq<ChannelEvent>)
    requires
        cx.scancodes is Some,
    ensures
        after_events(cx, events).scancodes is Some,
        after_events(cx, events).scancode_capacity == cx.scancode_capacity,
        cx.scancodes->0 + queued(cx, events) == observed(cx, events) + after_events(cx, events).scancodes->0,
    decreases events.len(),
{
    if events.len() == 0 {
        assert(cx.scancodes->0 + Seq::<u8>::empty() =~= Seq::<u8>::empty() + cx.scancodes->0);
    } else {
        let earlier = events.drop_last();
        let mid = after_events(cx, earlier);
        lemma_every_scancode_once_in_order(cx, earlier);
        let waiting = mid.scancodes->0;
        let end = after_event(mid, events.last());
        let added = queued_by(mid, events.last());
        let got = observed_by(mid, events.last());
        assert(waiting + added =~= got + end.scancodes->0);
        assert(cx.scancodes->0 + (queued(cx, earlier) + added) =~= (cx.scancodes->0 + queued(cx, earlier)) + added);
        assert((observed(cx, earlier) + waiting) + added =~= observed(cx, earlier) + (waiting
            + added));
        assert(observed(cx, earlier) + (got + end.scancodes->0) =~= (observed(cx, earlier) + got)
            + end.scancodes->0);
    }
}

} // verus!
