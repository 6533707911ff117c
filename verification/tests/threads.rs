use std::cell::Cell;
use std::rc::Rc;
use tifflin_core::threads::{
    get_cur_thread, get_thread_to_run, init, newthread, rel_cur_thread, reschedule, yield_time,
    HeldSpinlock, RunState, Scheduler, Thread, ThreadList, WaitQueue,
};

/// The guard of a lock: the lock is free once the guard is dropped.
struct Guard(Rc<Cell<bool>>);

impl Drop for Guard {
    fn drop(&mut self) {
        self.0.set(false);
    }
}

/// A lock that is held, with the flag that tells whether it still is.
fn held_lock() -> (HeldSpinlock<Guard>, Rc<Cell<bool>>) {
    let locked = Rc::new(Cell::new(true));
    (HeldSpinlock::new(Guard(locked.clone())), locked)
}

fn thread(tid: usize) -> Box<Thread<u64>> {
    newthread(Thread { tid, run_state: RunState::Runnable, cpu_state: 1000 + tid as u64 })
}

/// A scheduler whose running thread is `cur` and whose run queue holds `ready` in order.
fn scheduler(cur: usize, ready: &[usize]) -> Scheduler<u64> {
    let mut sched = init(0u64);
    let _ = get_cur_thread(&mut sched);
    rel_cur_thread(&mut sched, thread(cur));
    for tid in ready {
        sched.add_thread(thread(*tid));
    }
    sched
}

fn current_tid(sched: &Scheduler<u64>) -> Option<usize> {
    sched.current().map(|t| t.tid)
}

/// Takes every thread off the run queue and returns the identifiers in order.
fn drain(sched: &mut Scheduler<u64>) -> Vec<usize> {
    let mut seen = Vec::new();
    while let Some(t) = get_thread_to_run(sched) {
        assert_eq!(t.run_state, RunState::Runnable);
        seen.push(t.tid);
    }
    seen
}

fn drain_list(list: &mut ThreadList<u64>) -> Vec<usize> {
    let mut seen = Vec::new();
    while let Some(t) = list.pop() {
        seen.push(t.tid);
    }
    seen
}

#[test]
fn run_state_defaults_to_runnable() {
    assert_eq!(RunState::default(), RunState::Runnable);
}

#[test]
fn init_makes_thread_zero_current() {
    let sched = init(77u64);
    let cur = sched.current().unwrap();
    assert_eq!(cur.tid, 0);
    assert_eq!(cur.run_state, RunState::Runnable);
    assert_eq!(cur.cpu_state, 77);
    assert!(sched.run_queue().empty());
}

#[test]
fn newthread_boxes_the_record() {
    let t = newthread(Thread { tid: 5, run_state: RunState::EventWait(3), cpu_state: 9u8 });
    assert_eq!(t.tid, 5);
    assert_eq!(t.run_state, RunState::EventWait(3));
    assert_eq!(t.cpu_state, 9);
}

#[test]
fn thread_list_is_first_in_first_out() {
    let mut list: ThreadList<u64> = ThreadList::new();
    assert!(list.empty());
    for tid in 1..=5 {
        list.push(thread(tid));
        assert!(!list.empty());
    }
    for tid in 1..=5 {
        let t = list.pop().unwrap();
        assert_eq!(t.tid, tid);
        assert_eq!(t.cpu_state, 1000 + tid as u64);
    }
    assert!(list.empty());
    assert!(list.pop().is_none());
}

#[test]
fn thread_list_pop_on_empty_yields_nothing() {
    let mut list: ThreadList<u64> = ThreadList::new();
    assert!(list.pop().is_none());
    assert!(list.pop().is_none());
    assert!(list.empty());
}

#[test]
fn thread_list_push_after_emptying() {
    let mut list: ThreadList<u64> = ThreadList::new();
    list.push(thread(1));
    list.push(thread(2));
    assert_eq!(list.pop().unwrap().tid, 1);
    assert_eq!(list.pop().unwrap().tid, 2);
    assert!(list.pop().is_none());
    list.push(thread(3));
    assert!(!list.empty());
    list.push(thread(4));
    assert_eq!(drain_list(&mut list), vec![3, 4]);
    assert!(list.empty());
}

#[test]
fn thread_list_interleaved_pushes_and_pops() {
    let mut list: ThreadList<u64> = ThreadList::new();
    list.push(thread(1));
    list.push(thread(2));
    assert_eq!(list.pop().unwrap().tid, 1);
    list.push(thread(3));
    assert_eq!(list.pop().unwrap().tid, 2);
    assert_eq!(list.pop().unwrap().tid, 3);
    assert!(list.pop().is_none());
}

#[test]
fn add_thread_appends_a_runnable_thread() {
    let mut sched = scheduler(1, &[]);
    sched.add_thread(newthread(Thread { tid: 2, run_state: RunState::Dead(4), cpu_state: 5 }));
    sched.add_thread(thread(3));
    assert_eq!(current_tid(&sched), Some(1));
    let first = get_thread_to_run(&mut sched).unwrap();
    assert_eq!(first.tid, 2);
    assert_eq!(first.run_state, RunState::Runnable);
    assert_eq!(first.cpu_state, 5);
    assert_eq!(drain(&mut sched), vec![3]);
}

#[test]
fn yield_time_switches_to_the_head_of_the_run_queue() {
    let mut sched = scheduler(1, &[2]);
    yield_time(&mut sched);
    assert_eq!(current_tid(&sched), Some(2));
    assert_eq!(sched.current().unwrap().run_state, RunState::Runnable);
    assert_eq!(drain(&mut sched), vec![1]);
}

#[test]
fn yield_time_puts_the_caller_at_the_back() {
    let mut sched = scheduler(1, &[2, 3, 4]);
    yield_time(&mut sched);
    assert_eq!(current_tid(&sched), Some(2));
    yield_time(&mut sched);
    assert_eq!(current_tid(&sched), Some(3));
    assert_eq!(drain(&mut sched), vec![4, 1, 2]);
}

#[test]
fn yield_time_alone_keeps_running() {
    let mut sched = scheduler(1, &[]);
    yield_time(&mut sched);
    assert_eq!(current_tid(&sched), Some(1));
    assert!(sched.run_queue().empty());
}

#[test]
fn yield_time_round_robin_returns_to_the_first() {
    let mut sched = scheduler(1, &[2, 3]);
    let mut order = Vec::new();
    for _ in 0..6 {
        yield_time(&mut sched);
        order.push(current_tid(&sched).unwrap());
    }
    assert_eq!(order, vec![2, 3, 1, 2, 3, 1]);
}

#[test]
fn reschedule_with_nothing_ready_leaves_the_slot_empty() {
    let mut sched = scheduler(1, &[]);
    let cur = get_cur_thread(&mut sched);
    assert_eq!(cur.tid, 1);
    reschedule(&mut sched);
    assert!(sched.current().is_none());
    assert!(sched.run_queue().empty());
}

#[test]
fn reschedule_picks_the_longest_waiting_thread() {
    let mut sched = scheduler(1, &[2, 3]);
    let _ = get_cur_thread(&mut sched);
    reschedule(&mut sched);
    assert_eq!(current_tid(&sched), Some(2));
    assert_eq!(drain(&mut sched), vec![3]);
}

#[test]
fn get_and_rel_cur_thread_move_the_record() {
    let mut sched = scheduler(7, &[8]);
    let cur = get_cur_thread(&mut sched);
    assert_eq!(cur.tid, 7);
    assert!(sched.current().is_none());
    rel_cur_thread(&mut sched, cur);
    assert_eq!(current_tid(&sched), Some(7));
    assert_eq!(drain(&mut sched), vec![8]);
}

#[test]
fn get_thread_to_run_on_empty_queue_is_none() {
    let mut sched = scheduler(1, &[]);
    assert!(get_thread_to_run(&mut sched).is_none());
    assert_eq!(current_tid(&sched), Some(1));
}

#[test]
fn wait_queue_starts_empty() {
    let queue: WaitQueue<u64> = WaitQueue::new(12);
    assert_eq!(queue.ident(), 12);
    assert!(queue.list().empty());
}

#[test]
fn wait_blocks_the_caller_and_releases_the_lock() {
    let mut sched = scheduler(1, &[2, 3]);
    let mut queue: WaitQueue<u64> = WaitQueue::new(5);
    let (mut lock, locked) = held_lock();
    assert!(lock.is_held());
    assert!(locked.get());
    queue.wait(&mut sched, &mut lock);
    assert!(!lock.is_held());
    assert!(!locked.get());
    assert_eq!(current_tid(&sched), Some(2));
    assert!(!queue.list().empty());
    assert_eq!(drain(&mut sched), vec![3]);
}

#[test]
fn wait_then_wake_one_returns_runnable() {
    // Thread 1 waits while it holds a lock; thread 2 takes over, wakes it and yields.
    let mut sched = scheduler(1, &[2]);
    let mut queue: WaitQueue<u64> = WaitQueue::new(5);
    let (mut lock, locked) = held_lock();
    queue.wait(&mut sched, &mut lock);
    assert!(!locked.get());
    assert_eq!(current_tid(&sched), Some(2));
    assert!(sched.run_queue().empty());

    queue.wake_one(&mut sched);
    assert!(queue.list().empty());
    assert_eq!(current_tid(&sched), Some(2));
    assert!(!sched.run_queue().empty());

    yield_time(&mut sched);
    let resumed = sched.current().unwrap();
    assert_eq!(resumed.tid, 1);
    assert_eq!(resumed.run_state, RunState::Runnable);
    assert_eq!(resumed.cpu_state, 1001);
    assert_eq!(drain(&mut sched), vec![2]);
}

#[test]
fn blocked_thread_carries_the_identity_of_its_queue() {
    let mut sched = scheduler(1, &[2]);
    let mut queue: WaitQueue<u64> = WaitQueue::new(31);
    let (mut lock, _locked) = held_lock();
    queue.wait(&mut sched, &mut lock);
    // Waking into a second scheduler lets the record be looked at before it runs.
    let mut other = scheduler(9, &[]);
    queue.wake_one(&mut other);
    let woken = get_thread_to_run(&mut other).unwrap();
    assert_eq!(woken.tid, 1);
    assert_eq!(woken.run_state, RunState::Runnable);
}

#[test]
fn wake_one_wakes_in_arrival_order() {
    let mut sched = scheduler(1, &[2, 3, 4]);
    let mut queue: WaitQueue<u64> = WaitQueue::new(5);
    for _ in 0..3 {
        let (mut lock, _locked) = held_lock();
        queue.wait(&mut sched, &mut lock);
    }
    assert_eq!(current_tid(&sched), Some(4));
    assert!(sched.run_queue().empty());
    queue.wake_one(&mut sched);
    queue.wake_one(&mut sched);
    queue.wake_one(&mut sched);
    assert!(queue.list().empty());
    assert_eq!(drain(&mut sched), vec![1, 2, 3]);
}

#[test]
fn wake_one_on_empty_queue_does_nothing() {
    let mut sched = scheduler(1, &[2]);
    let mut queue: WaitQueue<u64> = WaitQueue::new(5);
    queue.wake_one(&mut sched);
    assert!(queue.list().empty());
    assert_eq!(current_tid(&sched), Some(1));
    assert_eq!(drain(&mut sched), vec![2]);
}

#[test]
fn wake_one_does_not_switch_threads() {
    let mut sched = scheduler(1, &[2]);
    let mut queue: WaitQueue<u64> = WaitQueue::new(5);
    let (mut lock, _locked) = held_lock();
    queue.wait(&mut sched, &mut lock);
    queue.wake_one(&mut sched);
    assert_eq!(current_tid(&sched), Some(2));
}

#[test]
fn held_spinlock_release_drops_the_guard() {
    let (mut lock, locked) = held_lock();
    assert!(lock.is_held());
    lock.release();
    assert!(!lock.is_held());
    assert!(!locked.get());
}

#[test]
fn later_waiter_is_woken_after_the_earlier_ones() {
    let mut sched = scheduler(1, &[2, 3, 9]);
    let mut queue: WaitQueue<u64> = WaitQueue::new(5);
    for _ in 0..3 {
        let (mut lock, _locked) = held_lock();
        queue.wait(&mut sched, &mut lock);
    }
    assert_eq!(current_tid(&sched), Some(9));
    queue.wake_one(&mut sched);
    queue.wake_one(&mut sched);
    assert_eq!(drain(&mut sched), vec![1, 2]);
    queue.wake_one(&mut sched);
    let woken = get_thread_to_run(&mut sched).unwrap();
    assert_eq!(woken.tid, 3);
    assert_eq!(woken.run_state, RunState::Runnable);
    assert_eq!(woken.cpu_state, 1003);
    assert!(queue.list().empty());
}
