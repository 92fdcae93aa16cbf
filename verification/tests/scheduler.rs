use std::cell::RefCell;
use std::rc::Rc;

use kernel::interrupt::interrupts::InterruptIndex;
use kernel::task::context::{Context, TASK_QUEUE_SIZE};
use kernel::task::executor::{Executor, IdleAction, Step, TaskWaker};
use kernel::task::keyboard::{
    add_scancode, can_add_scancode, execute_keycode, ScancodeStream, Submitted,
    SCANCODE_QUEUE_SIZE,
};
use kernel::task::{init_executor, Computation, Poll, Task, TaskId, TaskIdCounter};

/// A task that writes its identifier into a log at every poll and finishes
/// at the poll with the given number.
struct Logging {
    log: Rc<RefCell<Vec<u64>>>,
    polls: u32,
    finish_at: u32,
}

impl Logging {
    fn new(log: &Rc<RefCell<Vec<u64>>>, finish_at: u32) -> Logging {
        Logging { log: log.clone(), polls: 0, finish_at }
    }
}

impl Computation for Logging {
    fn poll(&mut self, cx: &mut Context) -> Poll<()> {
        let waker = cx.waker().expect("polled without a wake handle");
        self.log.borrow_mut().push(waker.task_id().as_u64());
        self.polls += 1;
        if self.polls >= self.finish_at {
            Poll::Ready(())
        } else {
            Poll::Pending
        }
    }
}

/// A task that wakes itself at every poll, a given number of times.
struct SelfWaking {
    log: Rc<RefCell<Vec<u64>>>,
    wakes_left: u32,
}

impl Computation for SelfWaking {
    fn poll(&mut self, cx: &mut Context) -> Poll<()> {
        let waker = cx.waker().expect("polled without a wake handle");
        self.log.borrow_mut().push(waker.task_id().as_u64());
        if self.wakes_left == 0 {
            return Poll::Ready(());
        }
        self.wakes_left -= 1;
        assert!(!cx.is_task_queue_full());
        waker.wake_task(cx);
        Poll::Pending
    }
}

fn new_log() -> Rc<RefCell<Vec<u64>>> {
    Rc::new(RefCell::new(Vec::new()))
}

#[test]
fn interrupt_vectors() {
    assert_eq!(InterruptIndex::Timer.as_u8(), 32);
    assert_eq!(InterruptIndex::Keyboard.as_u8(), 33);
    assert_eq!(InterruptIndex::Timer.as_usize(), 32);
    assert_eq!(InterruptIndex::Keyboard.as_usize(), 33);
}

#[test]
fn task_ids_are_issued_in_increasing_order() {
    let mut counter = TaskIdCounter::new();
    let first = TaskId::new(&mut counter);
    let second = TaskId::new(&mut counter);
    let third = TaskId::new(&mut counter);
    assert_eq!(first.as_u64(), 0);
    assert_eq!(second.as_u64(), 1);
    assert_eq!(third.as_u64(), 2);
    assert!(first < second && second < third);
    assert_ne!(first, second);
    assert_eq!(TaskId::from_u64(1), second);
}

#[test]
fn tasks_take_their_identifier_from_the_counter() {
    let log = new_log();
    let mut counter = TaskIdCounter::new();
    let a = Task::new(Logging::new(&log, 1), &mut counter);
    let b = Task::new(Logging::new(&log, 1), &mut counter);
    assert_eq!(a.id().as_u64(), 0);
    assert_eq!(b.id().as_u64(), 1);
}

#[test]
fn task_poll_advances_the_computation() {
    let log = new_log();
    let mut counter = TaskIdCounter::new();
    let mut cx = Context::new();
    let mut executor = Executor::new();
    let task = Task::new(Logging::new(&log, 2), &mut counter);
    let id = task.id();
    executor.spawn(task, &mut cx);
    assert_eq!(executor.run_next_ready(&mut cx), Step::Pending(id));
    TaskWaker::new(id).wake_task(&mut cx);
    assert_eq!(executor.run_next_ready(&mut cx), Step::Finished(id));
    assert_eq!(*log.borrow(), vec![0, 0]);
}

#[test]
fn new_context_is_empty() {
    let mut cx = Context::new();
    assert_eq!(cx.ready_len(), 0);
    assert!(!cx.is_task_queue_full());
    assert!(!cx.is_scancode_queue_initialized());
    assert!(cx.waker().is_none());
    assert!(cx.registered().is_none());
    assert!(cx.take_delivered().is_empty());
}

#[test]
fn every_spawned_task_is_polled_before_idle() {
    let log = new_log();
    let mut counter = TaskIdCounter::new();
    let mut cx = Context::new();
    let mut executor = Executor::new();
    for _ in 0..5 {
        let task = Task::new(Logging::new(&log, 10), &mut counter);
        assert!(!executor.contains_task(task.id()));
        assert!(!cx.is_task_queue_full());
        executor.spawn(task, &mut cx);
        assert_eq!(executor.sleep_if_idle(&cx), IdleAction::Resume);
    }
    assert_eq!(cx.ready_len(), 5);
    executor.run_ready_tasks(&mut cx);
    assert_eq!(*log.borrow(), vec![0, 1, 2, 3, 4]);
    assert_eq!(executor.sleep_if_idle(&cx), IdleAction::Halt);
    assert_eq!(executor.task_count(), 5);
}

#[test]
fn spawn_puts_the_task_into_the_table_once() {
    let log = new_log();
    let mut counter = TaskIdCounter::new();
    let mut cx = Context::new();
    let mut executor = Executor::new();
    let task = Task::new(Logging::new(&log, 1), &mut counter);
    let id = task.id();
    assert!(!executor.contains_task(id));
    executor.spawn(task, &mut cx);
    assert!(executor.contains_task(id));
    assert_eq!(executor.task_count(), 1);
    assert_eq!(cx.ready_len(), 1);
    assert!(!executor.contains_task(TaskId::from_u64(7)));
}

#[test]
fn finished_tasks_leave_table_and_cache_together() {
    let log = new_log();
    let mut counter = TaskIdCounter::new();
    let mut cx = Context::new();
    let mut executor = Executor::new();
    let mut ids = Vec::new();
    // task k finishes at its poll number k + 1
    for k in 0..4u32 {
        let task = Task::new(Logging::new(&log, k + 1), &mut counter);
        ids.push(task.id());
        executor.spawn(task, &mut cx);
    }
    assert_eq!(executor.waker_count(), 0);
    for round in 0..4usize {
        executor.run_ready_tasks(&mut cx);
        assert_eq!(executor.task_count(), 3 - round);
        assert_eq!(executor.waker_count(), executor.task_count());
        assert!(!executor.contains_task(ids[round]));
        for id in &ids {
            if executor.contains_task(*id) {
                TaskWaker::new(*id).wake_task(&mut cx);
            }
        }
    }
    assert_eq!(executor.task_count(), 0);
    assert_eq!(executor.waker_count(), 0);
    assert_eq!(log.borrow().len(), 4 + 3 + 2 + 1);
}

#[test]
fn cache_follows_the_table_step_by_step() {
    let log = new_log();
    let mut counter = TaskIdCounter::new();
    let mut cx = Context::new();
    let mut executor = Executor::new();
    let a = Task::new(Logging::new(&log, 1), &mut counter);
    let b = Task::new(Logging::new(&log, 2), &mut counter);
    let (a_id, b_id) = (a.id(), b.id());
    executor.spawn(a, &mut cx);
    executor.spawn(b, &mut cx);
    assert_eq!(executor.run_next_ready(&mut cx), Step::Finished(a_id));
    assert_eq!((executor.task_count(), executor.waker_count()), (1, 0));
    assert_eq!(executor.run_next_ready(&mut cx), Step::Pending(b_id));
    assert_eq!((executor.task_count(), executor.waker_count()), (1, 1));
    assert_eq!(executor.run_next_ready(&mut cx), Step::Idle);
    TaskWaker::new(b_id).wake_task(&mut cx);
    assert_eq!(executor.run_next_ready(&mut cx), Step::Finished(b_id));
    assert_eq!((executor.task_count(), executor.waker_count()), (0, 0));
}

#[test]
fn stale_ready_entries_are_skipped() {
    let log = new_log();
    let mut counter = TaskIdCounter::new();
    let mut cx = Context::new();
    let mut executor = Executor::new();
    let task = Task::new(Logging::new(&log, 1), &mut counter);
    let id = task.id();
    executor.spawn(task, &mut cx);
    let waker = TaskWaker::new(id);
    waker.wake_task(&mut cx);
    waker.wake_task(&mut cx);
    assert_eq!(cx.ready_len(), 3);
    assert_eq!(executor.run_next_ready(&mut cx), Step::Finished(id));
    assert_eq!(executor.run_next_ready(&mut cx), Step::Stale(id));
    assert_eq!(cx.ready_len(), 1);
    assert_eq!(executor.run_next_ready(&mut cx), Step::Stale(id));
    assert_eq!(executor.run_next_ready(&mut cx), Step::Idle);
    assert_eq!(*log.borrow(), vec![0]);
    assert_eq!(executor.task_count(), 0);
}

#[test]
fn stale_entry_of_an_unknown_task_is_skipped() {
    let mut cx = Context::new();
    let mut executor = Executor::new();
    TaskWaker::new(TaskId::from_u64(42)).wake_task(&mut cx);
    assert_eq!(executor.run_next_ready(&mut cx), Step::Stale(TaskId::from_u64(42)));
    assert_eq!(executor.sleep_if_idle(&cx), IdleAction::Halt);
}

#[test]
fn idle_check_does_not_halt_on_pending_work() {
    let mut cx = Context::new();
    let executor = Executor::new();
    assert_eq!(executor.sleep_if_idle(&cx), IdleAction::Halt);
    TaskWaker::new(TaskId::from_u64(3)).wake_task(&mut cx);
    assert_eq!(executor.sleep_if_idle(&cx), IdleAction::Resume);
}

#[test]
fn wake_ups_that_arrive_while_draining_are_drained() {
    let log = new_log();
    let mut counter = TaskIdCounter::new();
    let mut cx = Context::new();
    let mut executor = Executor::new();
    let task = Task::new(SelfWaking { log: log.clone(), wakes_left: 2 }, &mut counter);
    executor.spawn(task, &mut cx);
    assert_eq!(executor.sleep_if_idle(&cx), IdleAction::Resume);
    executor.run_ready_tasks(&mut cx);
    assert_eq!(*log.borrow(), vec![0, 0, 0]);
    assert_eq!(executor.sleep_if_idle(&cx), IdleAction::Halt);
    assert_eq!(executor.task_count(), 0);
    assert_eq!(executor.waker_count(), 0);
}

#[test]
fn draining_keeps_the_order_of_the_queue() {
    let log = new_log();
    let mut counter = TaskIdCounter::new();
    let mut cx = Context::new();
    let mut executor = Executor::new();
    // task 0 wakes itself once, task 1 finishes at once, task 2 waits
    executor.spawn(Task::new(SelfWaking { log: log.clone(), wakes_left: 1 }, &mut counter), &mut cx);
    executor.spawn(Task::new(Logging::new(&log, 1), &mut counter), &mut cx);
    executor.spawn(Task::new(Logging::new(&log, 9), &mut counter), &mut cx);
    TaskWaker::new(TaskId::from_u64(1)).wake_task(&mut cx);
    // the queue holds 0, 1, 2, 1; the poll of 0 adds 0 behind them
    executor.run_ready_tasks(&mut cx);
    assert_eq!(*log.borrow(), vec![0, 1, 2, 0]);
    assert_eq!(cx.ready_len(), 0);
    assert_eq!(executor.task_count(), 1);
    assert!(executor.contains_task(TaskId::from_u64(2)));
}

#[test]
fn waking_b_before_a_was_polled() {
    let log = new_log();
    let mut counter = TaskIdCounter::new();
    let mut cx = Context::new();
    let mut executor = Executor::new();
    let a = Task::new(Logging::new(&log, 5), &mut counter);
    let b = Task::new(Logging::new(&log, 5), &mut counter);
    let (a_id, b_id) = (a.id(), b.id());
    executor.spawn(a, &mut cx);
    executor.spawn(b, &mut cx);
    TaskWaker::new(b_id).wake_task(&mut cx);
    executor.run_ready_tasks(&mut cx);
    assert_eq!(*log.borrow(), vec![a_id.as_u64(), b_id.as_u64(), b_id.as_u64()]);
    assert_eq!(executor.sleep_if_idle(&cx), IdleAction::Halt);
    assert!(executor.contains_task(a_id) && executor.contains_task(b_id));
}

#[test]
fn ready_queue_holds_its_capacity() {
    let mut cx = Context::new();
    let waker = TaskWaker::new(TaskId::from_u64(9));
    assert_eq!(waker.task_id(), TaskId::from_u64(9));
    for _ in 0..TASK_QUEUE_SIZE {
        assert!(!cx.is_task_queue_full());
        waker.wake_task(&mut cx);
    }
    assert!(cx.is_task_queue_full());
    assert_eq!(cx.ready_len(), 100);
}

#[test]
fn scancode_queue_is_initialised_by_its_stream() {
    let mut cx = Context::new();
    assert!(!cx.is_scancode_queue_initialized());
    let _stream = ScancodeStream::new(&mut cx);
    assert!(cx.is_scancode_queue_initialized());
    assert_eq!(cx.scancode_len(), 0);
    assert_eq!(add_scancode(&mut cx, 0x1E), Submitted::Queued);
    assert_eq!(cx.scancode_len(), 1);
    assert_eq!(cx.ready_len(), 0);
}

#[test]
fn scancodes_come_out_in_order() {
    let mut cx = Context::new();
    let mut stream = ScancodeStream::new(&mut cx);
    assert!(cx.is_scancode_queue_initialized());
    assert_eq!(stream.try_next(&mut cx), None);
    for byte in [7u8, 8, 9] {
        assert_eq!(add_scancode(&mut cx, byte), Submitted::Queued);
    }
    assert_eq!(cx.scancode_len(), 3);
    assert_eq!(stream.try_next(&mut cx), Some(7));
    assert_eq!(stream.try_next(&mut cx), Some(8));
    assert_eq!(stream.try_next(&mut cx), Some(9));
    assert_eq!(stream.try_next(&mut cx), None);
    assert_eq!(cx.ready_len(), 0);
}

#[test]
fn full_scancode_queue_drops_the_newest() {
    let mut cx = Context::new();
    let mut stream = ScancodeStream::new(&mut cx);
    for i in 0..SCANCODE_QUEUE_SIZE {
        assert_eq!(add_scancode(&mut cx, i as u8), Submitted::Queued);
    }
    assert_eq!(cx.scancode_len(), 100);
    assert_eq!(add_scancode(&mut cx, 0xEE), Submitted::Dropped);
    assert_eq!(cx.scancode_len(), 100);
    for i in 0..SCANCODE_QUEUE_SIZE {
        assert_eq!(stream.try_next(&mut cx), Some(i as u8));
    }
    assert_eq!(stream.try_next(&mut cx), None);
}

#[test]
fn submission_after_registration_wakes_the_consumer() {
    let mut cx = Context::new();
    let mut stream = ScancodeStream::new(&mut cx);
    let waker = TaskWaker::new(TaskId::from_u64(5));
    assert_eq!(stream.try_next(&mut cx), None);
    stream.register(&mut cx, waker);
    assert_eq!(stream.recheck(&mut cx), Poll::Pending);
    assert_eq!(cx.ready_len(), 0);
    assert_eq!(add_scancode(&mut cx, 0x30), Submitted::Queued);
    assert_eq!(cx.ready_len(), 1);
    // the registration was used up: a second scancode wakes nobody
    assert_eq!(add_scancode(&mut cx, 0x31), Submitted::Queued);
    assert_eq!(cx.ready_len(), 1);
    let mut executor = Executor::new();
    assert_eq!(executor.run_next_ready(&mut cx), Step::Stale(TaskId::from_u64(5)));
    assert_eq!(stream.try_next(&mut cx), Some(0x30));
    assert_eq!(stream.try_next(&mut cx), Some(0x31));
}

#[test]
fn submission_between_fast_path_and_registration_is_seen() {
    let mut cx = Context::new();
    let mut stream = ScancodeStream::new(&mut cx);
    let waker = TaskWaker::new(TaskId::from_u64(5));
    assert_eq!(stream.try_next(&mut cx), None);
    assert_eq!(add_scancode(&mut cx, 0x2E), Submitted::Queued);
    stream.register(&mut cx, waker);
    assert_eq!(stream.recheck(&mut cx), Poll::Ready(Some(0x2E)));
    // the registration was withdrawn: the next scancode wakes nobody
    assert_eq!(add_scancode(&mut cx, 0x2F), Submitted::Queued);
    assert_eq!(cx.ready_len(), 0);
}

#[test]
fn submission_between_registration_and_recheck_is_seen() {
    let mut cx = Context::new();
    let mut stream = ScancodeStream::new(&mut cx);
    let waker = TaskWaker::new(TaskId::from_u64(5));
    assert_eq!(stream.try_next(&mut cx), None);
    stream.register(&mut cx, waker);
    assert_eq!(add_scancode(&mut cx, 0x2E), Submitted::Queued);
    assert_eq!(cx.ready_len(), 1);
    assert_eq!(stream.recheck(&mut cx), Poll::Ready(Some(0x2E)));
    assert_eq!(stream.recheck(&mut cx), Poll::Pending);
}

#[test]
fn registering_again_replaces_the_waiter() {
    let mut cx = Context::new();
    let mut stream = ScancodeStream::new(&mut cx);
    stream.register(&mut cx, TaskWaker::new(TaskId::from_u64(1)));
    stream.register(&mut cx, TaskWaker::new(TaskId::from_u64(2)));
    assert_eq!(add_scancode(&mut cx, 1), Submitted::Queued);
    let mut executor = Executor::new();
    assert_eq!(executor.run_next_ready(&mut cx), Step::Stale(TaskId::from_u64(2)));
    assert_eq!(executor.run_next_ready(&mut cx), Step::Idle);
}

#[test]
fn consumer_observes_three_keycodes_in_order() {
    let mut counter = TaskIdCounter::new();
    let (mut executor, mut cx) = init_executor(&mut counter);
    assert_eq!(executor.task_count(), 1);
    assert_eq!(cx.ready_len(), 1);
    assert!(cx.is_scancode_queue_initialized());
    // no task is polling yet
    for byte in [0x1Eu8, 0x30, 0x2E] {
        assert!(can_add_scancode(&cx));
        assert_eq!(add_scancode(&mut cx, byte), Submitted::Queued);
    }
    assert!(cx.take_delivered().is_empty());
    assert_eq!(executor.sleep_if_idle(&cx), IdleAction::Resume);
    executor.run_ready_tasks(&mut cx);
    assert_eq!(cx.take_delivered(), vec![0x1E, 0x30, 0x2E]);
    assert!(cx.take_delivered().is_empty());
    assert_eq!(cx.scancode_len(), 0);
    assert_eq!(executor.sleep_if_idle(&cx), IdleAction::Halt);
    assert_eq!(executor.task_count(), 1);
    // the consumer waits: the next scancode wakes it
    assert_eq!(add_scancode(&mut cx, 0x1F), Submitted::Queued);
    assert_eq!(add_scancode(&mut cx, 0x20), Submitted::Queued);
    assert_eq!(cx.ready_len(), 1);
    assert_eq!(executor.sleep_if_idle(&cx), IdleAction::Resume);
    executor.run_ready_tasks(&mut cx);
    assert_eq!(cx.take_delivered(), vec![0x1F, 0x20]);
}

#[test]
fn consumer_polls_through_the_stream() {
    let mut counter = TaskIdCounter::new();
    let mut cx = Context::new();
    let mut executor = Executor::new();
    let stream = ScancodeStream::new(&mut cx);
    let task = Task::new(execute_keycode(stream), &mut counter);
    let id = task.id();
    executor.spawn(task, &mut cx);
    assert_eq!(executor.run_next_ready(&mut cx), Step::Pending(id));
    assert_eq!(cx.waker(), Some(TaskWaker::new(id)));
    assert_eq!(cx.registered(), Some(TaskWaker::new(id)));
    assert_eq!(add_scancode(&mut cx, 0x10), Submitted::Queued);
    assert_eq!(cx.ready_len(), 1);
    assert_eq!(executor.run_next_ready(&mut cx), Step::Pending(id));
    assert_eq!(cx.take_delivered(), vec![0x10]);
}


#[test]
fn consumer_without_a_queue_finishes() {
    let mut counter = TaskIdCounter::new();
    let mut elsewhere = Context::new();
    let stream = ScancodeStream::new(&mut elsewhere);
    let mut cx = Context::new();
    let mut executor = Executor::new();
    let task = Task::new(execute_keycode(stream), &mut counter);
    let id = task.id();
    executor.spawn(task, &mut cx);
    assert_eq!(executor.run_next_ready(&mut cx), Step::Finished(id));
    assert_eq!(executor.task_count(), 0);
    assert!(!cx.is_scancode_queue_initialized());
    assert!(cx.take_delivered().is_empty());
}

#[test]
fn poll_next_takes_the_fast_path_without_registering() {
    let mut cx = Context::new();
    let mut stream = ScancodeStream::new(&mut cx);
    assert_eq!(add_scancode(&mut cx, 0x44), Submitted::Queued);
    // poll on behalf of a task: give the context a wake handle through a poll
    struct Probe {
        stream: Option<ScancodeStream>,
        results: Rc<RefCell<Vec<Poll<Option<u8>>>>>,
    }
    impl Computation for Probe {
        fn poll(&mut self, cx: &mut Context) -> Poll<()> {
            let mut stream = self.stream.take().expect("polled twice");
            self.results.borrow_mut().push(stream.poll_next(cx));
            self.results.borrow_mut().push(stream.poll_next(cx));
            Poll::Ready(())
        }
    }
    let results = Rc::new(RefCell::new(Vec::new()));
    let mut counter = TaskIdCounter::new();
    let mut executor = Executor::new();
    assert_eq!(stream.try_next(&mut cx), Some(0x44));
    assert_eq!(add_scancode(&mut cx, 0x45), Submitted::Queued);
    let task = Task::new(Probe { stream: Some(stream), results: results.clone() }, &mut counter);
    let id = task.id();
    executor.spawn(task, &mut cx);
    assert_eq!(executor.run_next_ready(&mut cx), Step::Finished(id));
    assert_eq!(*results.borrow(), vec![Poll::Ready(Some(0x45)), Poll::Pending]);
    // the second poll registered the task: a scancode wakes it, though it is gone
    assert_eq!(add_scancode(&mut cx, 0x46), Submitted::Queued);
    assert_eq!(executor.run_next_ready(&mut cx), Step::Stale(id));
}

#[test]
fn a_wake_up_that_does_not_fit_is_foreseen() {
    let mut cx = Context::new();
    assert!(can_add_scancode(&cx));
    let mut stream = ScancodeStream::new(&mut cx);
    let waker = TaskWaker::new(TaskId::from_u64(1));
    for _ in 0..TASK_QUEUE_SIZE {
        waker.wake_task(&mut cx);
    }
    // nobody waits: a scancode wakes nobody
    assert_eq!(cx.registered(), None);
    assert!(can_add_scancode(&cx));
    assert_eq!(add_scancode(&mut cx, 1), Submitted::Queued);
    stream.register(&mut cx, waker);
    assert_eq!(cx.registered(), Some(waker));
    // somebody waits and the ready queue is full
    assert!(!can_add_scancode(&cx));
    let mut executor = Executor::new();
    assert_eq!(executor.run_next_ready(&mut cx), Step::Stale(TaskId::from_u64(1)));
    assert!(can_add_scancode(&cx));
    assert_eq!(add_scancode(&mut cx, 2), Submitted::Queued);
    assert_eq!(cx.ready_len(), 100);
    assert_eq!(cx.registered(), None);
}

#[test]
fn a_dropped_scancode_still_wakes_the_consumer() {
    let mut cx = Context::new();
    let mut stream = ScancodeStream::new(&mut cx);
    for i in 0..SCANCODE_QUEUE_SIZE {
        assert_eq!(add_scancode(&mut cx, i as u8), Submitted::Queued);
    }
    let waker = TaskWaker::new(TaskId::from_u64(7));
    stream.register(&mut cx, waker);
    assert_eq!(cx.ready_len(), 0);
    assert!(can_add_scancode(&cx));
    assert_eq!(add_scancode(&mut cx, 0xEE), Submitted::Dropped);
    // the byte is lost, the consumer is woken and has left the slot
    assert_eq!(cx.scancode_len(), 100);
    assert_eq!(cx.registered(), None);
    assert_eq!(cx.ready_len(), 1);
    let mut executor = Executor::new();
    assert_eq!(executor.run_next_ready(&mut cx), Step::Stale(TaskId::from_u64(7)));
    // nobody is registered now: the next dropped byte wakes nobody
    assert_eq!(add_scancode(&mut cx, 0xEF), Submitted::Dropped);
    assert_eq!(cx.ready_len(), 0);
    assert_eq!(stream.try_next(&mut cx), Some(0));
}

#[test]
fn default_executor_is_empty() {
    let mut cx = Context::new();
    let mut executor = Executor::default();
    assert_eq!(executor.task_count(), 0);
    assert_eq!(executor.waker_count(), 0);
    assert_eq!(executor.run_next_ready(&mut cx), Step::Idle);
    executor.run_ready_tasks(&mut cx);
    assert_eq!(executor.sleep_if_idle(&cx), IdleAction::Halt);
}

#[test]
fn a_task_that_waits_goes_back_into_the_table() {
    let log = new_log();
    let mut counter = TaskIdCounter::new();
    let mut executor = Executor::new();
    let task = Task::new(Logging::new(&log, 1), &mut counter);
    let id = task.id();
    assert_eq!(executor.finish_poll(task, Poll::Pending), Step::Pending(id));
    assert!(executor.contains_task(id));
    assert_eq!((executor.task_count(), executor.waker_count()), (1, 0));
    assert!(log.borrow().is_empty());
}

#[test]
fn a_task_that_completed_leaves_table_and_cache() {
    let log = new_log();
    let mut counter = TaskIdCounter::new();
    let mut cx = Context::new();
    let mut executor = Executor::new();
    let first = Task::new(Logging::new(&log, 9), &mut counter);
    let second = Task::new(Logging::new(&log, 9), &mut counter);
    let (first_id, second_id) = (first.id(), second.id());
    executor.spawn(first, &mut cx);
    executor.spawn(second, &mut cx);
    executor.run_ready_tasks(&mut cx);
    assert_eq!((executor.task_count(), executor.waker_count()), (2, 2));
    // a task with the identifier of the first, as it comes back from a poll
    let mut again = TaskIdCounter::new();
    let polled = Task::new(Logging::new(&log, 9), &mut again);
    assert_eq!(polled.id(), first_id);
    assert_eq!(executor.finish_poll(polled, Poll::Ready(())), Step::Finished(first_id));
    assert!(!executor.contains_task(first_id));
    assert!(executor.contains_task(second_id));
    assert_eq!((executor.task_count(), executor.waker_count()), (1, 1));
}
