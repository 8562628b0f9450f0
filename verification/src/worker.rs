//! The pool of media workers and the choice of a worker for a new room.

use rand::Rng;
use vstd::prelude::*;

verus! {

/// First port of the block reserved for the listeners of the workers.
pub const PORT_BASE: u16 = 31300;

/// Number of ports in the block, and so the largest pool that can be served.
pub const PORT_COUNT: usize = 32;

/// One media worker together with the listener bound for it.
///
/// `slot` is the position the worker was started in, one slot per core, and
/// `port` the port its listener is bound to.
#[derive(Clone, Copy, Debug, PartialEq, Eq, Structural)]
pub struct WorkerSet {
    pub slot: usize,
    pub port: u16,
}

/// Why a pool could not be put together.
#[derive(Clone, Copy, Debug, PartialEq, Eq, Structural)]
pub enum EngineInitError {
    /// A worker came up in a slot for which no listener port is reserved.
    PortsExhausted { slot: usize },
}

/// The workers that came up at start, in slot order.
pub struct WorkerOwner {
    workers: Vec<WorkerSet>,
    announced_address: String,
}

/// The port reserved for the listener of the worker in `slot`.
pub open spec fn port_of(slot: int) -> int {
    PORT_BASE + slot
}

/// Whether a worker came up in `slot`.
pub open spec fn came_up(started: Seq<bool>, slot: int) -> bool {
    0 <= slot < started.len() && started[slot]
}

/// Whether `pool` holds the worker of `slot`.
pub open spec fn holds_slot(pool: Seq<WorkerSet>, slot: int) -> bool {
    exists|k: int| 0 <= k < pool.len() && (#[trigger] pool[k]).slot == slot
}

/// A pool is well formed when its workers stand in strictly increasing slot
/// order, each below `PORT_COUNT` and on the port reserved for its slot.
pub open spec fn pool_wf(pool: Seq<WorkerSet>) -> bool {
    &&& forall|k: int|
        0 <= k < pool.len() ==> (#[trigger] pool[k]).slot < PORT_COUNT && pool[k].port == port_of(
            pool[k].slot as int,
        )
    &&& forall|j: int, k: int|
        0 <= j < k < pool.len() ==> (#[trigger] pool[j]).slot < (#[trigger] pool[k]).slot
}

/// `pool` is the pool for the start outcomes `started`: well formed, and
/// holding exactly the slots in which a worker came up.
pub open spec fn is_pool_of(pool: Seq<WorkerSet>, started: Seq<bool>) -> bool {
    &&& pool_wf(pool)
    &&& forall|k: int| 0 <= k < pool.len() ==> came_up(started, (#[trigger] pool[k]).slot as int)
    &&& forall|slot: int| #[trigger] came_up(started, slot) ==> holds_slot(pool, slot)
}

/// What a pool can offer a new room: nothing if it is empty, otherwise any
/// one of its workers.
pub open spec fn offers(pool: Seq<WorkerSet>, offered: Option<WorkerSet>) -> bool {
    match offered {
        Some(worker) => pool.contains(worker),
        None => pool.len() == 0,
    }
}

/// Whether some worker came up in a slot that has no reserved port.
pub open spec fn overflows(started: Seq<bool>) -> bool {
    exists|slot: int| PORT_COUNT <= slot && #[trigger] came_up(started, slot)
}

/// The port reserved for the listener of the worker in `slot`; none for a
/// slot beyond the block.
pub fn listener_port(slot: usize) -> (port: Option<u16>)
    ensures
        port == if slot < PORT_COUNT {
            Some(port_of(slot as int) as u16)
        } else {
            None::<u16>
        },
{
    if slot < PORT_COUNT {
        Some(PORT_BASE + slot as u16)
    } else {
        None
    }
}

/// The first and the last port of the block reserved for media.
pub fn port_range() -> (range: (u16, u16))
    ensures
        range.0 == PORT_BASE,
        range.1 == PORT_BASE + PORT_COUNT - 1,
{
    (PORT_BASE, PORT_BASE + (PORT_COUNT - 1) as u16)
}

/// Draws an index below `length` from the thread-local generator of `rand`,
/// by `Rng::gen_range` on the half-open range from zero to `length`.
///
/// `gen_range` panics on an empty range, which the precondition rules out,
/// and returns a value inside the range it was given. Which value is not
/// stated: two draws on the same length may differ.
#[verifier::external_body]
fn random_index(length: usize) -> (index: usize)
    requires
        length > 0,
    ensures
        index < length,
{
    rand::thread_rng().gen_range(0..length)
}

/// The number of physical cores of the machine, by `get_physical` of
/// `num_cpus`.
///
/// Its documentation promises a count of at least one. The count is read
/// from the machine and nothing else is stated of it.
#[verifier::external_body]
fn physical_cores() -> (count: usize)
    ensures
        count >= 1,
{
    num_cpus::get_physical()
}

impl View for WorkerOwner {
    type V = Seq<WorkerSet>;

    closed spec fn view(&self) -> Seq<WorkerSet> {
        self.workers@
    }
}

impl WorkerOwner {
    /// The address the listeners announce to clients, as the contracts see
    /// it.
    pub closed spec fn announced(&self) -> Seq<char> {
        self.announced_address@
    }

    /// The number of workers to start: the configured count where there is
    /// one, otherwise the number of physical cores.
    pub fn core_count(configured: Option<usize>, physical: usize) -> (count: usize)
        ensures
            count == match configured {
                Some(n) => n,
                None => physical,
            },
    {
        match configured {
            Some(n) => n,
            None => physical,
        }
    }

    /// The number of workers to start on this machine: the configured count
    /// where there is one, otherwise the number of its physical cores, which
    /// is looked up only then.
    pub fn detect_core_count(configured: Option<usize>) -> (count: usize)
        ensures
            configured matches Some(n) ==> count == n,
            configured is None ==> count >= 1,
    {
        match configured {
            Some(n) => n,
            None => Self::core_count(None, physical_cores()),
        }
    }

    /// Builds the pool from the outcome of starting one worker per slot.
    ///
    /// A slot whose worker failed to start is left out. A worker that came up
    /// in a slot at or beyond `PORT_COUNT` has no port to listen on: the first
    /// such slot is reported and no pool is built.
    pub fn new(started: &Vec<bool>, announced_address: String) -> (result: Result<
        WorkerOwner,
        EngineInitError,
    >)
        ensures
            match result {
                Ok(pool) => {
                    &&& !overflows(started@)
                    &&& is_pool_of(pool@, started@)
                    &&& pool.announced() == announced_address@
                },
                Err(EngineInitError::PortsExhausted { slot }) => {
                    &&& PORT_COUNT <= slot
                    &&& came_up(started@, slot as int)
                    &&& forall|other: int|
                        PORT_COUNT <= other < slot ==> !#[trigger] came_up(started@, other)
                },
            },
    {
        let mut workers: Vec<WorkerSet> = Vec::new();
        let mut slot: usize = 0;
        while slot < started.len()
            invariant
                slot <= started.len(),
                is_pool_of(workers@, started@.take(slot as int)),
                forall|other: int| PORT_COUNT <= other < slot ==> !#[trigger] came_up(started@, other),
            decreases started.len() - slot,
        {
            let ghost before = workers@;
            if started[slot] {
                match listener_port(slot) {
                    Some(port) => workers.push(WorkerSet { slot, port }),
                    None => {
                        return Err(EngineInitError::PortsExhausted { slot });
                    },
                }
            }
            proof {
                let seen = started@.take(slot as int);
                let next = started@.take(slot + 1);
                assert forall|k: int| 0 <= k < before.len() implies (#[trigger] before[k]).slot
                    < slot by {
                    assert(came_up(seen, before[k].slot as int));
                }
                assert forall|s: int| #[trigger] came_up(next, s) implies holds_slot(workers@, s) by {
                    if s < slot {
                        assert(came_up(seen, s));
                        let k = choose|k: int| 0 <= k < before.len() && (#[trigger] before[k]).slot == s;
                        assert(workers@[k].slot == s);
                    } else {
                        assert(workers@[workers@.len() - 1].slot == s);
                    }
                }
                assert forall|k: int| 0 <= k < workers@.len() implies came_up(
                    next,
                    (#[trigger] workers@[k]).slot as int,
                ) by {
                    if k < before.len() {
                        assert(came_up(seen, before[k].slot as int));
                    }
                }
            }
            slot += 1;
        }
        assert(started@.take(slot as int) == started@);
        assert(!overflows(started@));
        Ok(WorkerOwner { workers, announced_address })
    }

    /// The address the listeners announce to clients.
    pub fn announced_address(&self) -> (address: &String)
        ensures
            address@ == self.announced(),
    {
        &self.announced_address
    }

    /// The number of workers in the pool.
    pub fn len(&self) -> (count: usize)
        ensures
            count == self@.len(),
    {
        self.workers.len()
    }

    /// The worker at position `index` of the pool, if there is one.
    pub fn worker_at(&self, index: usize) -> (worker: Option<WorkerSet>)
        ensures
            worker == if index < self@.len() {
                Some(self@[index as int])
            } else {
                None::<WorkerSet>
            },
    {
        if index < self.workers.len() {
            Some(self.workers[index])
        } else {
            None
        }
    }

    /// Picks a worker for a new room, at random among those in the pool.
    ///
    /// An empty pool has no worker to give. Otherwise some worker of the pool
    /// is returned; which one is left to the random draw.
    pub fn choose_worker(&self) -> (chosen: Option<WorkerSet>)
        ensures
            offers(self@, chosen),
    {
        let length: usize = self.workers.len();
        if length == 0 {
            return None;
        }
        let index: usize = random_index(length);
        self.worker_at(index)
    }
}

/// In a well-formed pool no two workers listen on the same port.
pub proof fn lemma_ports_distinct(pool: Seq<WorkerSet>, j: int, k: int)
    requires
        pool_wf(pool),
        0 <= j < pool.len(),
        0 <= k < pool.len(),
        j != k,
    ensures
        pool[j].port != pool[k].port,
{
    if j < k {
        assert(pool[j].slot < pool[k].slot);
    } else {
        assert(pool[k].slot < pool[j].slot);
    }
}

} // verus!
