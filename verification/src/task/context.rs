//! The state that tasks, wake handles and interrupt handlers share: the ready
//! queue, the scancode queue and the slot of the waiting consumer.
use crate::task::executor::TaskWaker;
use crate::task::keyboard::SCANCODE_QUEUE_SIZE;
use crate::task::queue::{
    byte_queue_capacity, byte_queue_items, byte_queue_len, byte_queue_new, byte_queue_pop, byte_queue_push,
    id_queue_capacity, id_queue_is_empty, id_queue_is_full, id_queue_items, id_queue_len,
    id_queue_new, id_queue_pop, id_queue_push,
};
use crossbeam_queue::ArrayQueue;
use vstd::prelude::*;

verus! {

/// The capacity of the ready queue.
pub const TASK_QUEUE_SIZE: usize = 100;

/// The shared state as plain values.
pub ghost struct ContextView {
    /// The wake handle of the task that is being polled.
    pub waker: Option<TaskWaker>,
    /// The identifiers in the ready queue, oldest first.
    pub ready: Seq<u64>,
    /// The capacity of the ready queue.
    pub ready_capacity: nat,
    /// The scancodes that wait to be consumed, oldest first; `None` until the
    /// scancode queue is initialised.
    pub scancodes: Option<Seq<u8>>,
    /// The capacity of the scancode queue, once it is initialised.
    pub scancode_capacity: nat,
    /// The wake handle that the waiting consumer has registered, if any.
    pub registered: Option<TaskWaker>,
    /// The scancodes that the consumer has taken from the queue and handed
    /// over to the kernel, which has not fetched them yet; oldest first.
    pub delivered: Seq<u8>,
}

impl ContextView {
    /// Both queues have the capacity that the scheduler makes them with, and
    /// hold no more than it.
    pub open spec fn wf(self) -> bool {
        &&& self.ready_capacity == TASK_QUEUE_SIZE
        &&& self.ready.len() <= self.ready_capacity
        &&& self.scancodes matches Some(bytes) ==> self.scancode_capacity == SCANCODE_QUEUE_SIZE
            && bytes.len() <= self.scancode_capacity
    }

    /// Whether the ready queue has room for one more identifier.
    pub open spec fn can_wake(self) -> bool {
        self.ready.len() < self.ready_capacity
    }
}

/// The shared state of the scheduler. A task sees it while it is polled; an
/// interrupt handler sees it while it submits a scancode.
pub struct Context {
    waker: Option<TaskWaker>,
    task_queue: ArrayQueue<u64>,
    scancode_queue: Option<ArrayQueue<u8>>,
    scancode_waker: Option<TaskWaker>,
    delivered: Vec<u8>,
}

impl View for Context {
    type V = ContextView;

    closed spec fn view(&self) -> ContextView {
        ContextView {
            waker: self.waker,
            ready: id_queue_items(self.task_queue),
            ready_capacity: id_queue_capacity(self.task_queue),
            scancodes: match self.scancode_queue {
                Some(queue) => Some(byte_queue_items(queue)),
                None => None,
            },
            scancode_capacity: match self.scancode_queue {
                Some(queue) => byte_queue_capacity(queue),
                None => 0,
            },
            registered: self.scancode_waker,
            delivered: self.delivered@,
        }
    }
}

impl Context {
    pub open spec fn wf(&self) -> bool {
        self@.wf()
    }

    /// A context with an empty ready queue, no scancode queue yet, and
    /// nobody waiting.
    pub fn new() -> (cx: Context)
        ensures
            cx.wf(),
            cx@ == (ContextView {
                waker: None,
                ready: Seq::<u64>::empty(),
                ready_capacity: TASK_QUEUE_SIZE as nat,
                scancodes: None,
                scancode_capacity: 0,
                registered: None,
                delivered: Seq::<u8>::empty(),
            }),
    {
        Context {
            waker: None,
            task_queue: id_queue_new(TASK_QUEUE_SIZE),
            scancode_queue: None,
            scancode_waker: None,
            delivered: Vec::new(),
        }
    }

    /// Fetches the scancodes that the consumer has handed over, oldest
    /// first, and leaves none behind.
    pub fn take_delivered(&mut self) -> (scancodes: Vec<u8>)
        ensures
            scancodes@ == old(self)@.delivered,
            final(self)@ == (ContextView { delivered: Seq::<u8>::empty(), ..old(self)@ }),
    {
        let mut scancodes: Vec<u8> = Vec::new();
        core::mem::swap(&mut self.delivered, &mut scancodes);
        scancodes
    }

    /// Hands a scancode over to the kernel, behind those handed over before.
    pub(crate) fn deliver(&mut self, scancode: u8)
        ensures
            final(self)@ == (ContextView {
                delivered: old(self)@.delivered.push(scancode),
                ..old(self)@
            }),
    {
        self.delivered.push(scancode);
    }

    /// The wake handle of the task that is being polled.
    pub fn waker(&self) -> (waker: Option<TaskWaker>)
        ensures
            waker == self@.waker,
    {
        self.waker
    }

    /// Whether the ready queue is full: a wake-up would not fit.
    pub fn is_task_queue_full(&self) -> (full: bool)
        requires
            self.wf(),
        ensures
            full == !self@.can_wake(),
    {
        id_queue_is_full(&self.task_queue)
    }

    /// The wake handle that the waiting consumer has registered, if any.
    pub fn registered(&self) -> (waker: Option<TaskWaker>)
        ensures
            waker == self@.registered,
    {
        self.scancode_waker
    }

    /// Whether the scancode queue is initialised.
    pub fn is_scancode_queue_initialized(&self) -> (initialized: bool)
        ensures
            initialized == self@.scancodes.is_some(),
    {
        self.scancode_queue.is_some()
    }

    /// The number of scancodes that wait in the queue, which must be
    /// initialised.
    pub fn scancode_len(&self) -> (len: usize)
        requires
            self@.scancodes is Some,
        ensures
            len == self@.scancodes->0.len(),
    {
        match &self.scancode_queue {
            Some(queue) => byte_queue_len(queue),
            None => 0,
        }
    }

    pub(crate) fn set_waker(&mut self, waker: Option<TaskWaker>)
        ensures
            final(self)@ == (ContextView { waker, ..old(self)@ }),
    {
        self.waker = waker;
    }

    pub(crate) fn is_ready_empty(&self) -> (empty: bool)
        ensures
            empty == (self@.ready.len() == 0),
    {
        id_queue_is_empty(&self.task_queue)
    }

    /// The number of identifiers in the ready queue.
    pub fn ready_len(&self) -> (len: usize)
        ensures
            len == self@.ready.len(),
    {
        id_queue_len(&self.task_queue)
    }

    /// Appends an identifier to the ready queue, which must have room.
    pub(crate) fn push_ready(&mut self, id: u64)
        requires
            old(self).wf(),
            old(self)@.can_wake(),
        ensures
            final(self)@ == (ContextView { ready: old(self)@.ready.push(id), ..old(self)@ }),
            final(self).wf(),
    {
        let _ = id_queue_push(&mut self.task_queue, id);
    }

    /// Takes the oldest identifier out of the ready queue.
    pub(crate) fn pop_ready(&mut self) -> (id: Option<u64>)
        requires
            old(self).wf(),
        ensures
            final(self).wf(),
            old(self)@.ready.len() == 0 ==> id is None && final(self)@ == old(self)@,
            old(self)@.ready.len() > 0 ==> id == Some(old(self)@.ready[0]) && final(self)@ == (
            ContextView { ready: old(self)@.ready.drop_first(), ..old(self)@ }),
    {
        id_queue_pop(&mut self.task_queue)
    }

    /// Makes the scancode queue, empty.
    pub(crate) fn init_scancodes(&mut self)
        requires
            old(self).wf(),
            old(self)@.scancodes is None,
        ensures
            final(self).wf(),
            final(self)@ == (ContextView {
                scancodes: Some(Seq::<u8>::empty()),
                scancode_capacity: SCANCODE_QUEUE_SIZE as nat,
                ..old(self)@
            }),
    {
        self.scancode_queue = Some(byte_queue_new(SCANCODE_QUEUE_SIZE));
    }

    /// Appends a scancode if the queue has room, and says whether it did.
    pub(crate) fn push_scancode(&mut self, scancode: u8) -> (queued: bool)
        requires
            old(self).wf(),
            old(self)@.scancodes is Some,
        ensures
            final(self).wf(),
            queued == (old(self)@.scancodes->0.len() < old(self)@.scancode_capacity),
            queued ==> final(self)@ == (ContextView {
                scancodes: Some(old(self)@.scancodes->0.push(scancode)),
                ..old(self)@
            }),
            !queued ==> final(self)@ == old(self)@,
    {
        match &mut self.scancode_queue {
            Some(queue) => byte_queue_push(queue, scancode).is_ok(),
            None => false,
        }
    }

    /// Takes the oldest scancode out of the queue.
    pub(crate) fn pop_scancode(&mut self) -> (scancode: Option<u8>)
        requires
            old(self).wf(),
            old(self)@.scancodes is Some,
        ensures
            final(self).wf(),
            old(self)@.scancodes->0.len() == 0 ==> scancode is None && final(self)@ == old(self)@,
            old(self)@.scancodes->0.len() > 0 ==> scancode == Some(old(self)@.scancodes->0[0])
                && final(self)@ == (ContextView {
                scancodes: Some(old(self)@.scancodes->0.drop_first()),
                ..old(self)@
            }),
    {
        match &mut self.scancode_queue {
            Some(queue) => byte_queue_pop(queue),
            None => None,
        }
    }

    /// Puts a wake handle into the slot of the waiting consumer, in place of
    /// the one that was there.
    pub(crate) fn register(&mut self, waker: TaskWaker)
        ensures
            final(self)@ == (ContextView { registered: Some(waker), ..old(self)@ }),
    {
        self.scancode_waker = Some(waker);
    }

    /// Empties the slot of the waiting consumer and hands out what was in it.
    pub(crate) fn take_registered(&mut self) -> (waker: Option<TaskWaker>)
        ensures
            waker == old(self)@.registered,
            final(self)@ == (ContextView { registered: None, ..old(self)@ }),
    {
        self.scancode_waker.take()
    }
}

} // verus!
