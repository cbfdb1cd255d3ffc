//! The address-keyed wait/notify registry: each address that has been waited
//! on maps to a FIFO queue of waiters, each parked on its own mutex and
//! condition variable until a notifier pops it or its timeout passes.
use crate::codec::signed_of;
use crate::memory::{cell, in_bounds, LinearMemory};
use std::sync::Arc;
use vstd::prelude::*;

verus! {

/// A wait was woken by a notify.
pub const WAIT_OK: i32 = 0;

/// A wait found another value than the expected one and did not sleep.
pub const WAIT_NOT_EQUAL: i32 = 1;

/// A wait's timeout passed before any notify woke it.
pub const WAIT_TIMED_OUT: i32 = 2;

#[verifier::external_type_specification]
#[verifier::external_body]
#[verifier::reject_recursive_types(T)]
pub struct ExConcurrentQueue<T>(concurrent_queue::ConcurrentQueue<T>);

#[verifier::external_type_specification]
#[verifier::external_body]
#[verifier::reject_recursive_types(K)]
#[verifier::reject_recursive_types(V)]
#[verifier::reject_recursive_types(S)]
pub struct ExDashMap<K, V, S>(dashmap::DashMap<K, V, S>);

#[verifier::external_type_specification]
#[verifier::external_body]
pub struct ExCondvar(parking_lot::Condvar);

#[verifier::external_type_specification]
#[verifier::external_body]
pub struct ExRawMutex(parking_lot::RawMutex);

#[verifier::external_type_specification]
#[verifier::external_body]
#[verifier::reject_recursive_types(R)]
#[verifier::reject_recursive_types(T)]
pub struct ExMutex<R, T: ?Sized>(lock_api::Mutex<R, T>);

/// A waiter's rendezvous: the waiter sleeps on `condvar` holding `mutex`, and
/// the notifier that pops it takes `mutex` before signalling.
#[derive(Debug)]
pub struct WaitEntry {
    condvar: parking_lot::Condvar,
    mutex: parking_lot::Mutex<()>,
}

/// The queue of waiters at one address, oldest first.
pub type WaitQueue = Arc<concurrent_queue::ConcurrentQueue<Arc<WaitEntry>>>;

/// The registry: the waiter queue of each address that has been waited on.
pub type WaitRegistry = dashmap::DashMap<i32, WaitQueue>;

/// Relies on `parking_lot::Condvar::new`.
#[verifier::external_body]
fn new_condvar() -> parking_lot::Condvar {
    parking_lot::Condvar::new()
}

/// Relies on `lock_api::Mutex::new`.
#[verifier::external_body]
fn new_mutex() -> parking_lot::Mutex<()> {
    parking_lot::Mutex::new(())
}

/// Relies on `lock_api::Mutex::lock`, `concurrent_queue::ConcurrentQueue::push`
/// and `parking_lot::Condvar::wait`: takes the entry's mutex, enrolls the entry
/// at the back of `queue` (an open unbounded queue accepts every push) and
/// sleeps until signalled. The mutex guard cannot leave this function: its type
/// is bound by an outside trait.
#[verifier::external_body]
fn enroll_and_sleep(entry: &Arc<WaitEntry>, queue: &WaitQueue) {
    let mut guard = entry.mutex.lock();
    queue.push(entry.clone()).expect("an open unbounded queue accepts every push");
    entry.condvar.wait(&mut guard)
}

/// Relies on `lock_api::Mutex::lock`, `concurrent_queue::ConcurrentQueue::push`
/// and `parking_lot::Condvar::wait_for`: as `enroll_and_sleep`, but sleeps at
/// most `nanos` nanoseconds; true where the time ran out.
#[verifier::external_body]
fn enroll_and_sleep_for(entry: &Arc<WaitEntry>, queue: &WaitQueue, nanos: u64) -> bool {
    let mut guard = entry.mutex.lock();
    queue.push(entry.clone()).expect("an open unbounded queue accepts every push");
    entry.condvar.wait_for(&mut guard, std::time::Duration::from_nanos(nanos)).timed_out()
}

/// Relies on `lock_api::Mutex::lock` and `parking_lot::Condvar::notify_one`:
/// signals the entry under its mutex; true where a sleeping waiter was woken.
#[verifier::external_body]
fn signal(entry: &WaitEntry) -> bool {
    let _guard = entry.mutex.lock();
    entry.condvar.notify_one()
}

/// Relies on `concurrent_queue::ConcurrentQueue::unbounded`.
#[verifier::external_body]
fn unbounded_queue() -> concurrent_queue::ConcurrentQueue<Arc<WaitEntry>> {
    concurrent_queue::ConcurrentQueue::unbounded()
}

/// Relies on `concurrent_queue::ConcurrentQueue::pop`: the oldest waiter, if any.
#[verifier::external_body]
fn dequeue(q: &WaitQueue) -> Option<Arc<WaitEntry>> {
    q.pop().ok()
}

/// Relies on `dashmap::DashMap::new`.
#[verifier::external_body]
pub(crate) fn new_registry() -> WaitRegistry {
    dashmap::DashMap::new()
}

/// Relies on `dashmap::DashMap::entry` and `Entry::or_insert_with`: the queue
/// at `addr`, made empty where there was none.
#[verifier::external_body]
fn queue_for(registry: &WaitRegistry, addr: i32) -> WaitQueue {
    registry.entry(addr).or_insert_with(new_queue).clone()
}

/// Relies on `dashmap::DashMap::get`: the queue at `addr`, if there is one.
#[verifier::external_body]
fn queue_at(registry: &WaitRegistry, addr: i32) -> Option<WaitQueue> {
    registry.get(&addr).map(|q| q.value().clone())
}

/// An empty waiter queue.
fn new_queue() -> WaitQueue {
    Arc::new(unbounded_queue())
}

impl WaitEntry {
    fn new() -> Self {
        WaitEntry { condvar: new_condvar(), mutex: new_mutex() }
    }
}

/// How long a waiter sleeps: without limit for a negative `timeout_nanos`,
/// else that many nanoseconds.
pub fn sleep_plan(timeout_nanos: i64) -> (r: Option<u64>)
    ensures
        r == (if timeout_nanos >= 0 {
            Some(timeout_nanos as u64)
        } else {
            None::<u64>
        }),
{
    if timeout_nanos >= 0 {
        Some(timeout_nanos as u64)
    } else {
        None
    }
}

/// Enrolls a fresh waiter at `addr` and sleeps as `sleep_plan` says, until a
/// notifier pops it or the time runs out. True where the time ran out.
pub(crate) fn park(registry: &WaitRegistry, addr: i32, timeout_nanos: i64) -> (timed_out: bool)
    ensures
        timeout_nanos < 0 ==> !timed_out,
{
    let entry = Arc::new(WaitEntry::new());
    let queue = queue_for(registry, addr);
    match sleep_plan(timeout_nanos) {
        Some(nanos) => enroll_and_sleep_for(&entry, &queue, nanos),
        None => {
            enroll_and_sleep(&entry, &queue);
            false
        },
    }
}

/// How many of the signal outcomes `o` (one per popped waiter) reached a
/// sleeping waiter.
pub open spec fn delivered_count(o: Seq<bool>) -> int {
    o.filter(|d: bool| d).len() as int
}

/// How many of the signals in `outcomes` reached a sleeping waiter.
pub fn tally(outcomes: &Vec<bool>) -> (r: i32)
    requires
        outcomes@.len() <= i32::MAX,
    ensures
        r == outcomes@.filter(|d: bool| d).len(),
{
    let mut r: i32 = 0;
    let mut i: usize = 0;
    while i < outcomes.len()
        invariant
            i <= outcomes@.len() <= i32::MAX,
            r == outcomes@.subrange(0, i as int).filter(|d: bool| d).len(),
        decreases outcomes@.len() - i,
    {
        proof {
            let before = outcomes@.subrange(0, i as int);
            assert(outcomes@.subrange(0, i + 1) =~= before.push(outcomes@[i as int]));
            before.lemma_filter_len_push(|d: bool| d, outcomes@[i as int]);
            before.lemma_filter_len(|d: bool| d);
        }
        if outcomes[i] {
            r = r + 1;
        }
        i = i + 1;
    }
    proof {
        assert(outcomes@.subrange(0, outcomes@.len() as int) =~= outcomes@);
    }
    r
}

/// Pops up to `count` of the oldest waiters in `queue` (none where there is no
/// queue), stopping at the first empty pop, and signals each popped waiter
/// once, under its mutex; returns how many signals reached a sleeping waiter.
pub fn notify_in(queue: Option<WaitQueue>, count: i32) -> (r: i32)
    ensures
        queue is None ==> r == 0,
        count <= 0 ==> r == 0,
        0 <= r,
        exists|o: Seq<bool>|
            o.len() <= (if count > 0 { count } else { 0 }) && r == #[trigger] delivered_count(o),
{
    let limit: usize = if count > 0 {
        count as usize
    } else {
        0
    };
    let mut outcomes: Vec<bool> = Vec::new();
    match queue {
        None => {},
        Some(q) => {
            while outcomes.len() < limit
                invariant
                    outcomes@.len() <= limit,
                ensures
                    outcomes@.len() <= limit,
                decreases limit - outcomes@.len(),
            {
                match dequeue(&q) {
                    Some(entry) => {
                        let delivered = signal(&entry);
                        outcomes.push(delivered);
                    },
                    None => {
                        break ;
                    },
                }
            }
        },
    }
    let r = tally(&outcomes);
    proof {
        outcomes@.lemma_filter_len(|d: bool| d);
        if outcomes@.len() == 0 {
            assert(outcomes@.filter(|d: bool| d).len() == 0);
        }
        assert(delivered_count(outcomes@) == r);
    }
    r
}

/// The status of a wait that slept: timed out, or woken.
pub fn wait_status(timed_out: bool) -> (r: i32)
    ensures
        r == if timed_out { WAIT_TIMED_OUT } else { WAIT_OK },
{
    if timed_out {
        WAIT_TIMED_OUT
    } else {
        WAIT_OK
    }
}

impl LinearMemory {
    /// Where the `i32` at `addr` equals `expected`, sleeps until a notify at
    /// `addr` wakes this thread (`WAIT_OK`) or, for a `timeout_nanos` of zero or
    /// more, until that many nanoseconds have passed (`WAIT_TIMED_OUT`); else
    /// returns `WAIT_NOT_EQUAL` at once.
    pub fn wait_i32(&self, addr: i32, expected: i32, timeout_nanos: i64) -> (r: i32)
        requires
            in_bounds(self@, addr, 4),
        ensures
            signed_of(cell(self@, addr, 4), 4) != expected ==> r == WAIT_NOT_EQUAL,
            signed_of(cell(self@, addr, 4), 4) == expected ==> r == WAIT_OK || r
                == WAIT_TIMED_OUT,
            timeout_nanos < 0 ==> r != WAIT_TIMED_OUT,
    {
        if self.atomic_read_i32(addr) != expected {
            return WAIT_NOT_EQUAL;
        }
        wait_status(park(self.registry(), addr, timeout_nanos))
    }

    /// As `wait_i32`, on the `i64` at `addr`.
    pub fn wait_i64(&self, addr: i32, expected: i64, timeout_nanos: i64) -> (r: i32)
        requires
            in_bounds(self@, addr, 8),
        ensures
            signed_of(cell(self@, addr, 8), 8) != expected ==> r == WAIT_NOT_EQUAL,
            signed_of(cell(self@, addr, 8), 8) == expected ==> r == WAIT_OK || r
                == WAIT_TIMED_OUT,
            timeout_nanos < 0 ==> r != WAIT_TIMED_OUT,
    {
        if self.atomic_read_i64(addr) != expected {
            return WAIT_NOT_EQUAL;
        }
        wait_status(park(self.registry(), addr, timeout_nanos))
    }

    /// Wakes up to `count` of the threads waiting at `addr`, oldest first, as
    /// `notify_in` does on the queue at `addr`; returns how many it woke, 0
    /// where nobody has waited at `addr`.
    pub fn notify(&self, addr: i32, count: i32) -> (r: i32)
        ensures
            count <= 0 ==> r == 0,
            0 <= r,
            exists|o: Seq<bool>|
                o.len() <= (if count > 0 { count } else { 0 }) && r == #[trigger] delivered_count(o),
    {
        notify_in(queue_at(self.registry(), addr), count)
    }
}

} // verus!
