//! Thread management: thread records, the run queue, wait queues and the
//! reschedule protocol.
//!
//! Scheduling is cooperative. A thread leaves the processor only by calling
//! [`yield_time`] or [`WaitQueue::wait`]; both hand its record to a queue and
//! then pick the next thread to run. The record of every thread is owned by
//! exactly one of three homes: the scheduler's slot for the running thread,
//! the run queue, or one wait queue.
//!
//! The scheduler decides and keeps the books. Switching stacks and registers
//! to the thread that it has chosen is the platform's part: after a call the
//! platform looks at the running thread and resumes it from its saved state.
//!
//! The queues own their records in a ring buffer instead of linking them
//! through a field of the record: appending and taking the head stay
//! constant-time, and no reference to the last record is kept.

use std::collections::VecDeque;
use vstd::prelude::*;

verus! {

/// What a thread is doing.
#[derive(Clone, Copy, Debug, PartialEq, Eq, Structural)]
pub enum RunState {
    /// Running, or ready to run.
    Runnable,
    /// Blocked on the wait queue with this identity.
    ListWait(usize),
    /// Blocked until an event with this number arrives.
    EventWait(u32),
    /// Terminated with this exit code.
    Dead(u32),
}

impl Default for RunState {
    /// A thread starts out runnable.
    fn default() -> (state: RunState)
        ensures
            state == RunState::Runnable,
    {
        RunState::Runnable
    }
}

/// The record of one thread. `S` is the processor state that the platform
/// saves for a thread that is not running; the scheduler only carries it.
pub struct Thread<S> {
    /// Thread identifier.
    pub tid: usize,
    /// What the thread is doing.
    pub run_state: RunState,
    /// Saved processor state.
    pub cpu_state: S,
}

/// An owned thread record.
pub type ThreadHandle<S> = Box<Thread<S>>;

/// What popping the head of a queue returns.
pub open spec fn spec_pop<T>(list: Seq<T>) -> Option<T> {
    if list.len() > 0 {
        Some(list[0])
    } else {
        None
    }
}

/// What popping the head of a queue leaves.
pub open spec fn spec_rest<T>(list: Seq<T>) -> Seq<T> {
    if list.len() > 0 {
        list.skip(1)
    } else {
        list
    }
}

/// A first-in first-out list of thread records, which it owns.
pub struct ThreadList<S> {
    items: VecDeque<Box<Thread<S>>>,
}

impl<S> View for ThreadList<S> {
    type V = Seq<Thread<S>>;

    /// The records in the list, the oldest first.
    closed spec fn view(&self) -> Seq<Thread<S>> {
        Seq::new(self.items@.len(), |i: int| *self.items@[i])
    }
}

impl<S> ThreadList<S> {
    /// Creates the empty list.
    pub fn new() -> (list: ThreadList<S>)
        ensures
            list@ == Seq::<Thread<S>>::empty(),
    {
        let list = ThreadList { items: VecDeque::new() };
        assert(list@ =~= Seq::<Thread<S>>::empty());
        list
    }

    /// Whether the list holds no record.
    pub fn empty(&self) -> (is_empty: bool)
        ensures
            is_empty == (self@.len() == 0),
    {
        self.items.len() == 0
    }

    /// Removes the oldest record and returns it, if there is one.
    pub fn pop(&mut self) -> (head: Option<Box<Thread<S>>>)
        ensures
            match head {
                Some(t) => spec_pop(old(self)@) == Some(*t),
                None => spec_pop(old(self)@) is None,
            },
            final(self)@ == spec_rest(old(self)@),
    {
        let head = self.items.pop_front();
        assert(self@ =~= spec_rest(old(self)@));
        head
    }

    /// Appends `t` behind all records that the list holds.
    pub fn push(&mut self, t: Box<Thread<S>>)
        ensures
            final(self)@ == old(self)@.push(*t),
    {
        self.items.push_back(t);
        assert(self@ =~= old(self)@.push(*t));
    }
}

/// A spinlock that its holder is about to let go of: the guard of the lock,
/// kept until [`HeldSpinlock::release`] drops it.
pub struct HeldSpinlock<G> {
    guard: Option<G>,
}

impl<G> HeldSpinlock<G> {
    /// Whether the lock is still held, that is, the guard has not been
    /// dropped.
    pub closed spec fn held(&self) -> bool {
        self.guard is Some
    }

    /// Takes over `guard`, the guard of a lock that the caller holds.
    pub fn new(guard: G) -> (lock: HeldSpinlock<G>)
        ensures
            lock.held(),
    {
        HeldSpinlock { guard: Some(guard) }
    }

    /// Whether the lock is still held.
    pub fn is_held(&self) -> (held: bool)
        ensures
            held == self.held(),
    {
        self.guard.is_some()
    }

    /// Lets go of the lock, which must be held: the guard is dropped.
    pub fn release(&mut self)
        requires
            old(self).held(),
        ensures
            !final(self).held(),
    {
        self.guard = None;
    }
}

/// Whether every record of `list` is runnable.
pub open spec fn all_runnable<S>(list: Seq<Thread<S>>) -> bool {
    forall|i: int| 0 <= i < list.len() ==> (#[trigger] list[i]).run_state == RunState::Runnable
}

/// Whether every record of `list` is blocked on the wait queue `id`.
pub open spec fn all_waiting_on<S>(list: Seq<Thread<S>>, id: usize) -> bool {
    forall|i: int|
        0 <= i < list.len() ==> (#[trigger] list[i]).run_state == RunState::ListWait(id)
}

/// `t` with its state set to `state`.
pub open spec fn with_state<S>(t: Thread<S>, state: RunState) -> Thread<S> {
    Thread { tid: t.tid, run_state: state, cpu_state: t.cpu_state }
}

/// Mathematical state of a [`Scheduler`].
pub struct SchedView<S> {
    /// The running thread, if the slot is filled.
    pub current: Option<Thread<S>>,
    /// The threads that are ready to run, the longest waiting first.
    pub run_queue: Seq<Thread<S>>,
}

impl<S> SchedView<S> {
    /// The invariant of the scheduler: the running thread and every thread in
    /// the run queue are runnable.
    pub open spec fn wf(self) -> bool {
        &&& self.current matches Some(t) ==> t.run_state == RunState::Runnable
        &&& all_runnable(self.run_queue)
    }

    /// The state after the next thread was picked: the head of the run queue
    /// becomes the running thread. With an empty run queue nothing changes.
    pub open spec fn reschedule(self) -> SchedView<S> {
        if self.run_queue.len() > 0 {
            SchedView { current: Some(self.run_queue[0]), run_queue: self.run_queue.skip(1) }
        } else {
            self
        }
    }

    /// The state after the running thread gave up the processor: it goes to
    /// the back of the run queue, and the head of the run queue runs.
    pub open spec fn yield_time(self) -> SchedView<S>
        recommends
            self.current is Some,
    {
        SchedView { current: None, run_queue: self.run_queue.push(self.current->0) }.reschedule()
    }
}

/// The scheduler's state: the slot for the running thread and the run queue.
pub struct Scheduler<S> {
    current: Option<Box<Thread<S>>>,
    run_queue: ThreadList<S>,
}

impl<S> View for Scheduler<S> {
    type V = SchedView<S>;

    closed spec fn view(&self) -> SchedView<S> {
        SchedView {
            current: match self.current {
                Some(t) => Some(*t),
                None => None,
            },
            run_queue: self.run_queue@,
        }
    }
}

impl<S> Scheduler<S> {
    /// The invariant of the scheduler.
    pub open spec fn wf(&self) -> bool {
        self@.wf()
    }

    /// The running thread, if the slot is filled.
    pub fn current(&self) -> (current: Option<&Thread<S>>)
        ensures
            match current {
                Some(t) => self@.current == Some(*t),
                None => self@.current is None,
            },
    {
        match &self.current {
            Some(t) => Some(&**t),
            None => None,
        }
    }

    /// The run queue.
    pub fn run_queue(&self) -> (queue: &ThreadList<S>)
        ensures
            queue@ == self@.run_queue,
    {
        &self.run_queue
    }

    /// Makes a thread ready to run that no queue holds yet, such as a new
    /// one: it becomes runnable and goes to the back of the run queue.
    pub fn add_thread(&mut self, t: Box<Thread<S>>)
        requires
            old(self).wf(),
        ensures
            final(self).wf(),
            final(self)@.current == old(self)@.current,
            final(self)@.run_queue == old(self)@.run_queue.push(
                with_state(*t, RunState::Runnable),
            ),
    {
        let mut t = t;
        t.run_state = RunState::Runnable;
        self.run_queue.push(t);
    }
}

/// Starts the scheduler: the thread that is executing becomes thread 0, which
/// is running, and nothing else is ready to run.
pub fn init<S>(cpu_state: S) -> (sched: Scheduler<S>)
    ensures
        sched.wf(),
        sched@.current == Some(Thread { tid: 0, run_state: RunState::Runnable, cpu_state }),
        sched@.run_queue == Seq::<Thread<S>>::empty(),
{
    let tid0 = newthread(Thread { tid: 0, run_state: RunState::Runnable, cpu_state });
    let mut sched = Scheduler { current: None, run_queue: ThreadList::new() };
    rel_cur_thread(&mut sched, tid0);
    sched
}

/// Makes an owned record of `t`.
pub fn newthread<S>(t: Thread<S>) -> (handle: Box<Thread<S>>)
    ensures
        *handle == t,
{
    Box::new(t)
}

/// The running thread gives up the processor: it goes to the back of the run
/// queue and the thread at the head of the run queue runs. A thread that
/// yields while nothing else is ready runs on.
pub fn yield_time<S>(sched: &mut Scheduler<S>)
    requires
        old(sched).wf(),
        old(sched)@.current is Some,
    ensures
        final(sched).wf(),
        final(sched)@ == old(sched)@.yield_time(),
{
    let cur = get_cur_thread(sched);
    sched.run_queue.push(cur);
    reschedule(sched);
}

/// Picks the next thread: the head of the run queue becomes the running
/// thread. With nothing ready to run the slot stays empty. The record of the
/// thread that ran before must have been moved to a queue already.
pub fn reschedule<S>(sched: &mut Scheduler<S>)
    requires
        old(sched).wf(),
        old(sched)@.current is None,
    ensures
        final(sched).wf(),
        final(sched)@ == old(sched)@.reschedule(),
{
    let thread = get_thread_to_run(sched);
    match thread {
        None => {},
        Some(t) => {
            assert(old(sched)@.run_queue[0].run_state == RunState::Runnable);
            rel_cur_thread(sched, t);
        },
    }
}

/// Takes the record of the running thread out of its slot.
pub fn get_cur_thread<S>(sched: &mut Scheduler<S>) -> (cur: Box<Thread<S>>)
    requires
        old(sched)@.current is Some,
    ensures
        Some(*cur) == old(sched)@.current,
        final(sched)@.current is None,
        final(sched)@.run_queue == old(sched)@.run_queue,
{
    sched.current.take().unwrap()
}

/// Puts the record of the running thread into its slot, which must be empty.
pub fn rel_cur_thread<S>(sched: &mut Scheduler<S>, t: Box<Thread<S>>)
    requires
        old(sched)@.current is None,
    ensures
        final(sched)@.current == Some(*t),
        final(sched)@.run_queue == old(sched)@.run_queue,
{
    sched.current = Some(t);
}

/// Takes the thread that is to run next off the run queue, if any is ready.
pub fn get_thread_to_run<S>(sched: &mut Scheduler<S>) -> (next: Option<Box<Thread<S>>>)
    ensures
        match next {
            Some(t) => spec_pop(old(sched)@.run_queue) == Some(*t),
            None => spec_pop(old(sched)@.run_queue) is None,
        },
        final(sched)@.run_queue == spec_rest(old(sched)@.run_queue),
        final(sched)@.current == old(sched)@.current,
{
    if sched.run_queue.empty() {
        None
    } else {
        sched.run_queue.pop()
    }
}

/// A queue of threads that are blocked until somebody wakes them.
pub struct WaitQueue<S> {
    id: usize,
    list: ThreadList<S>,
}

impl<S> View for WaitQueue<S> {
    type V = Seq<Thread<S>>;

    /// The blocked threads, the longest waiting first.
    closed spec fn view(&self) -> Seq<Thread<S>> {
        self.list@
    }
}

impl<S> WaitQueue<S> {
    /// The identity of the queue, which the threads that block on it carry
    /// in their state.
    pub closed spec fn id(&self) -> usize {
        self.id
    }

    /// The invariant of the queue: every thread in it is blocked on it.
    pub open spec fn wf(&self) -> bool {
        all_waiting_on(self@, self.id())
    }

    /// Creates the empty wait queue with identity `id`.
    pub fn new(id: usize) -> (queue: WaitQueue<S>)
        ensures
            queue.wf(),
            queue.id() == id,
            queue@ == Seq::<Thread<S>>::empty(),
    {
        WaitQueue { id, list: ThreadList::new() }
    }

    /// The identity of the queue.
    pub fn ident(&self) -> (id: usize)
        ensures
            id == self.id(),
    {
        self.id
    }

    /// The list of blocked threads.
    pub fn list(&self) -> (list: &ThreadList<S>)
        ensures
            list@ == self@,
    {
        &self.list
    }

    /// Blocks the running thread on this queue and lets go of `lock`, whose
    /// guard the caller has handed over.
    ///
    /// The record of the running thread is marked as waiting on this queue
    /// and appended to it; only then is the guard dropped, and last the next
    /// thread is picked from the run queue. A waker that needs the lock can
    /// therefore never find the thread missing from the queue. Another thread
    /// must be ready to run. The thread that blocked runs again when
    /// [`WaitQueue::wake_one`] has moved it to the run queue and the
    /// scheduler picks it, and it is then runnable.
    pub fn wait<G>(&mut self, sched: &mut Scheduler<S>, lock: &mut HeldSpinlock<G>)
        requires
            old(self).wf(),
            old(sched).wf(),
            old(sched)@.current is Some,
            old(sched)@.run_queue.len() > 0,
            old(lock).held(),
        ensures
            final(self).wf(),
            final(self).id() == old(self).id(),
            final(self)@ == old(self)@.push(
                with_state(old(sched)@.current->0, RunState::ListWait(old(self).id())),
            ),
            final(sched).wf(),
            final(sched)@.current == Some(old(sched)@.run_queue[0]),
            final(sched)@.run_queue == old(sched)@.run_queue.skip(1),
            !final(lock).held(),
    {
        self.enqueue_current(sched, lock);
        lock.release();
        reschedule(sched);
    }

    /// Moves the record of the running thread into this queue, marked as
    /// waiting on it. This is done under the caller's lock: `lock` must be
    /// held, so that no waker can look at the queue before the thread is in
    /// it.
    fn enqueue_current<G>(&mut self, sched: &mut Scheduler<S>, lock: &HeldSpinlock<G>)
        requires
            old(self).wf(),
            old(sched).wf(),
            old(sched)@.current is Some,
            lock.held(),
        ensures
            final(self).wf(),
            final(self).id() == old(self).id(),
            final(self)@ == old(self)@.push(
                with_state(old(sched)@.current->0, RunState::ListWait(old(self).id())),
            ),
            final(sched).wf(),
            final(sched)@.current is None,
            final(sched)@.run_queue == old(sched)@.run_queue,
    {
        let mut cur = get_cur_thread(sched);
        cur.run_state = RunState::ListWait(self.id);
        self.list.push(cur);
    }

    /// Wakes the thread that has waited longest: it becomes runnable and goes
    /// to the back of the run queue. With no thread waiting nothing happens.
    /// The woken thread runs when the scheduler picks it.
    pub fn wake_one(&mut self, sched: &mut Scheduler<S>)
        requires
            old(self).wf(),
            old(sched).wf(),
        ensures
            final(self).wf(),
            final(self).id() == old(self).id(),
            final(self)@ == spec_rest(old(self)@),
            final(sched).wf(),
            final(sched)@.current == old(sched)@.current,
            final(sched)@.run_queue == match spec_pop(old(self)@) {
                Some(t) => old(sched)@.run_queue.push(with_state(t, RunState::Runnable)),
                None => old(sched)@.run_queue,
            },
    {
        match self.list.pop() {
            Some(mut t) => {
                t.run_state = RunState::Runnable;
                sched.run_queue.push(t);
            },
            None => {},
        }
    }
}

/// The list after every record of `items` was pushed onto `list`, in order.
pub open spec fn push_all<T>(list: Seq<T>, items: Seq<T>) -> Seq<T>
    decreases items.len(),
{
    if items.len() == 0 {
        list
    } else {
        push_all(list, items.drop_last()).push(items.last())
    }
}

/// The list after `n` records were popped from `list`.
pub open spec fn pop_n<T>(list: Seq<T>, n: nat) -> Seq<T>
    decreases n,
{
    if n == 0 {
        list
    } else {
        spec_rest(pop_n(list, (n - 1) as nat))
    }
}

/// Pushing appends: what was pushed stands behind what was there, in the
/// order in which it was pushed.
pub proof fn lemma_push_all<T>(list: Seq<T>, items: Seq<T>)
    ensures
        push_all(list, items) == list + items,
    decreases items.len(),
{
    if items.len() > 0 {
        lemma_push_all(list, items.drop_last());
        assert(list + items =~= (list + items.drop_last()).push(items.last()));
    } else {
        assert(list + items =~= list);
    }
}

/// Popping takes from the front: `n` pops leave what stood behind the first
/// `n` records, and nothing once the list has run empty.
pub proof fn lemma_pop_n<T>(list: Seq<T>, n: nat)
    ensures
        n <= list.len() ==> pop_n(list, n) == list.skip(n as int),
        n >= list.len() ==> pop_n(list, n) == Seq::<T>::empty(),
    decreases n,
{
    if n > 0 {
        lemma_pop_n(list, (n - 1) as nat);
        if n <= list.len() {
            assert(list.skip(n - 1).skip(1) =~= list.skip(n as int));
        } else {
            assert(list.skip(list.len() as int) =~= Seq::<T>::empty());
        }
    } else {
        assert(list.skip(0) =~= list);
        if list.len() == 0 {
            assert(list =~= Seq::<T>::empty());
        }
    }
}

/// A thread list is first-in first-out.
///
/// After any records were pushed onto a list, the pop that follows `k`
/// earlier pops returns the record at place `k` of what the list held
/// followed by what was pushed. Once all of that is popped the list is empty
/// and popping returns nothing, and a record that is pushed then is the only
/// one in the list.
pub proof fn theorem_thread_list_fifo<T>(list: Seq<T>, items: Seq<T>, k: nat, t: T)
    ensures
        k < list.len() + items.len() ==> spec_pop(pop_n(push_all(list, items), k)) == Some(
            (list + items)[k as int],
        ),
        k >= list.len() + items.len() ==> spec_pop(pop_n(push_all(list, items), k)) is None,
        k >= list.len() + items.len() ==> pop_n(push_all(list, items), k).push(t) == seq![t],
{
    lemma_push_all(list, items);
    lemma_pop_n(list + items, k);
    if k >= list.len() + items.len() {
        assert(Seq::<T>::empty().push(t) =~= seq![t]);
    }
}

/// A thread that blocks on a wait queue is woken by the wake that finds it
/// at the head, after one wake for each thread that waited before it, and
/// comes back runnable with the identity and the saved state that it blocked
/// with. The earlier wakes wake the earlier waiters, in their order.
pub proof fn theorem_woken_thread_is_runnable<S>(
    waiting: Seq<Thread<S>>,
    current: Thread<S>,
    id: usize,
    k: nat,
)
    requires
        k <= waiting.len(),
    ensures
        ({
            let blocked = waiting.push(with_state(current, RunState::ListWait(id)));
            let woken = spec_pop(pop_n(blocked, k));
            &&& k < waiting.len() ==> woken == Some(waiting[k as int])
            &&& k == waiting.len() ==> {
                &&& woken == Some(with_state(current, RunState::ListWait(id)))
                &&& spec_rest(pop_n(blocked, k)) == Seq::<Thread<S>>::empty()
                &&& with_state(woken->0, RunState::Runnable).run_state == RunState::Runnable
                &&& with_state(woken->0, RunState::Runnable).tid == current.tid
                &&& with_state(woken->0, RunState::Runnable).cpu_state == current.cpu_state
            }
        }),
{
    let blocked = waiting.push(with_state(current, RunState::ListWait(id)));
    lemma_pop_n(blocked, k);
    if k == waiting.len() {
        assert(blocked.skip(k as int).skip(1) =~= Seq::<Thread<S>>::empty());
    }
}

/// Yielding rotates the threads and loses none: the thread that runs after
/// the call, followed by the run queue, is the run queue from before the
/// call followed by the thread that yielded. With another thread ready, that
/// thread runs and the one that yielded is last in the run queue.
pub proof fn theorem_yield_rotates<S>(v: SchedView<S>)
    requires
        v.wf(),
        v.current is Some,
    ensures
        v.yield_time().wf(),
        v.yield_time().current is Some,
        seq![v.yield_time().current->0] + v.yield_time().run_queue == v.run_queue.push(
            v.current->0,
        ),
        v.run_queue.len() > 0 ==> v.yield_time().current == Some(v.run_queue[0])
            && v.yield_time().run_queue.last() == v.current->0,
{
    let pushed = v.run_queue.push(v.current->0);
    assert(seq![pushed[0]] + pushed.skip(1) =~= pushed);
    assert forall|i: int| 0 <= i < pushed.skip(1).len() implies (#[trigger] pushed.skip(
        1,
    )[i]).run_state == RunState::Runnable by {
        if i + 1 < v.run_queue.len() {
            assert(v.run_queue[i + 1].run_state == RunState::Runnable);
        }
    }
    if v.run_queue.len() > 0 {
        assert(v.run_queue[0].run_state == RunState::Runnable);
    }
}

} // verus!
