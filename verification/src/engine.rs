//! Deterministic in-process execution engine.
//!
//! The backend drives an event-processing engine through five capabilities:
//! spawn, inject, run, and read-only queries. This module provides a fully
//! verified, deterministic engine with exactly that interface, so generated
//! workloads can be executed and measured in-process. Node addressing uses
//! the fixed 32x32x32 toroidal scheme: each axis is wrapped into [0, 32) and
//! combined as `x * 1024 + y * 32 + z`.

use vstd::prelude::*;
use crate::ir::Coord;

verus! {

/// The engine's node id for a coordinate: each axis taken modulo 32
/// (mathematical modulus, so negative axes wrap around), combined in base 32.
pub open spec fn node_id_spec(x: int, y: int, z: int) -> int {
    (x % 32) * 1024 + (y % 32) * 32 + (z % 32)
}

/// Wrap one axis into [0, 32), correcting negative remainders.
fn wrap_axis(v: i32) -> (r: i32)
    ensures
        r as int == (v as int) % 32,
        0 <= r < 32,
{
    if v >= 0 {
        v % 32
    } else {
        let w = -(v + 1);
        let r = 31 - (w % 32);
        proof {
            let wi = w as int;
            let vi = v as int;
            vstd::arithmetic::div_mod::lemma_fundamental_div_mod(wi, 32);
            vstd::arithmetic::div_mod::lemma_mod_bound(wi, 32);
            let q = -(wi / 32) - 1;
            assert(vi == 32 * q + (31 - wi % 32));
            vstd::arithmetic::div_mod::lemma_fundamental_div_mod_converse(
                vi,
                32,
                q,
                31 - wi % 32,
            );
        }
        r
    }
}

/// Compute the engine node id of a placed coordinate.
pub fn node_id(coord: &Coord) -> (r: i32)
    ensures
        r as int == node_id_spec(coord.x as int, coord.y as int, coord.z as int),
        0 <= r < 32768,
{
    let x = wrap_axis(coord.x);
    let y = wrap_axis(coord.y);
    let z = wrap_axis(coord.z);
    x * 1024 + y * 32 + z
}

/// The node id depends on each axis only modulo 32: shifting any axis by a
/// full period leaves the id unchanged. Stated over mathematical integers,
/// so no overflow caveat applies.
pub proof fn lemma_node_id_toroidal(x: int, y: int, z: int)
    ensures
        node_id_spec(x + 32, y, z) == node_id_spec(x, y, z),
        node_id_spec(x, y + 32, z) == node_id_spec(x, y, z),
        node_id_spec(x, y, z + 32) == node_id_spec(x, y, z),
{
    vstd::arithmetic::div_mod::lemma_mod_add_multiples_vanish(x, 32);
    vstd::arithmetic::div_mod::lemma_mod_add_multiples_vanish(y, 32);
    vstd::arithmetic::div_mod::lemma_mod_add_multiples_vanish(z, 32);
}

/// Saturating addition on `i32`, the engine's state-update arithmetic.
pub open spec fn sat_add_i32(a: int, b: int) -> int {
    if a + b > i32::MAX {
        i32::MAX as int
    } else if a + b < i32::MIN {
        i32::MIN as int
    } else {
        a + b
    }
}

/// Saturating addition on `u64`, used for the engine's counters.
pub open spec fn sat_add_u64(a: int, b: int) -> int {
    if a + b > u64::MAX {
        u64::MAX as int
    } else {
        a + b
    }
}

fn add_i32_saturating(a: i32, b: i32) -> (r: i32)
    ensures
        r as int == sat_add_i32(a as int, b as int),
{
    let s: i64 = (a as i64) + (b as i64);
    if s > i32::MAX as i64 {
        i32::MAX
    } else if s < i32::MIN as i64 {
        i32::MIN
    } else {
        s as i32
    }
}

fn add_u64_saturating(a: u64, b: u64) -> (r: u64)
    ensures
        r as int == sat_add_u64(a as int, b as int),
{
    let s: u128 = (a as u128) + (b as u128);
    if s > u64::MAX as u128 {
        u64::MAX
    } else {
        s as u64
    }
}

/// Index of the first process spawned at `nid`, or -1 when none is.
pub open spec fn first_occurrence(spawned: Seq<usize>, nid: usize) -> int
    decreases spawned.len(),
{
    if spawned.len() == 0 {
        -1
    } else if spawned[0] == nid {
        0
    } else {
        let rest = first_occurrence(spawned.skip(1), nid);
        if rest < 0 {
            -1
        } else {
            rest + 1
        }
    }
}

proof fn lemma_first_occurrence_at(spawned: Seq<usize>, nid: usize, i: int)
    requires
        0 <= i <= spawned.len(),
        forall|j: int| 0 <= j < i ==> spawned[j] != nid,
        i < spawned.len() ==> spawned[i] == nid,
    ensures
        first_occurrence(spawned, nid) == if i < spawned.len() {
            i
        } else {
            -1
        },
    decreases i,
{
    if i == 0 {
        if spawned.len() > 0 && spawned[0] != nid {
            assert(false);
        }
    } else {
        assert(spawned[0] != nid);
        lemma_first_occurrence_at(spawned.skip(1), nid, i - 1);
    }
}

/// The state of the process at node `nid`: the first process spawned there,
/// or 0 when the node is unoccupied.
pub open spec fn state_of(spawned: Seq<usize>, states: Seq<i32>, nid: usize) -> int {
    let i = first_occurrence(spawned, nid);
    if 0 <= i < states.len() {
        states[i] as int
    } else {
        0
    }
}

/// States after delivering one event `(nid, value)`: the first process at
/// that node has `value` added to its state; an event addressed to an
/// unoccupied node changes nothing.
pub open spec fn deliver_one(spawned: Seq<usize>, states: Seq<i32>, nid: usize, value: i32) -> Seq<
    i32,
> {
    let i = first_occurrence(spawned, nid);
    if 0 <= i < states.len() {
        states.update(i, sat_add_i32(states[i] as int, value as int) as i32)
    } else {
        states
    }
}

/// States after delivering the first `k` queued events in order.
pub open spec fn deliver_upto(
    spawned: Seq<usize>,
    states: Seq<i32>,
    queue: Seq<(usize, i32)>,
    k: int,
) -> Seq<i32>
    decreases k,
{
    if k <= 0 {
        states
    } else {
        let prev = deliver_upto(spawned, states, queue, k - 1);
        deliver_one(spawned, prev, queue[k - 1].0, queue[k - 1].1)
    }
}

/// How many queued events one `run` call consumes: all of them when the cap
/// is zero or negative, otherwise at most the cap.
pub open spec fn run_consumes(queue_len: int, max_events: int) -> int {
    if max_events <= 0 {
        queue_len
    } else if queue_len <= max_events {
        queue_len
    } else {
        max_events
    }
}

/// A deterministic event-processing engine. One process is spawned per
/// `spawn_process` call; events are queued by `inject_event` and delivered
/// in injection order by `run`, each delivered event advancing the clock by
/// one tick.
pub struct ModelEngine {
    /// Node ids of spawned processes, in spawn order.
    pub spawned: Vec<usize>,
    /// States of spawned processes, parallel to `spawned`.
    pub states: Vec<i32>,
    /// Pending events, in injection order.
    pub queue: Vec<(usize, i32)>,
    /// Total events delivered over the engine's lifetime.
    pub events_processed: u64,
    /// The engine clock: one tick per delivered event.
    pub current_time: u64,
}

impl ModelEngine {
    /// The two parallel process tables always have equal length.
    pub open spec fn wf(&self) -> bool {
        self.spawned@.len() == self.states@.len()
    }

    /// A fresh engine: no processes, no pending events, clock at zero.
    pub fn new() -> (e: ModelEngine)
        ensures
            e.wf(),
            e.spawned@.len() == 0,
            e.queue@.len() == 0,
            e.events_processed == 0,
            e.current_time == 0,
    {
        ModelEngine {
            spawned: Vec::new(),
            states: Vec::new(),
            queue: Vec::new(),
            events_processed: 0,
            current_time: 0,
        }
    }

    /// Spawn a process at the given coordinate, with initial state 0.
    pub fn spawn_process(&mut self, x: i32, y: i32, z: i32)
        requires
            old(self).wf(),
            old(self).spawned@.len() < usize::MAX,
        ensures
            final(self).wf(),
            final(self).spawned@ == old(self).spawned@.push(
                node_id_spec(x as int, y as int, z as int) as usize,
            ),
            final(self).states@ == old(self).states@.push(0i32),
            final(self).queue == old(self).queue,
            final(self).events_processed == old(self).events_processed,
            final(self).current_time == old(self).current_time,
    {
        let nid = node_id(&Coord { x, y, z });
        self.spawned.push(nid as usize);
        self.states.push(0);
    }

    /// Queue an event carrying `value` for the process at the coordinate.
    pub fn inject_event(&mut self, x: i32, y: i32, z: i32, value: i32)
        requires
            old(self).wf(),
            old(self).queue@.len() < usize::MAX,
        ensures
            final(self).wf(),
            final(self).queue@ == old(self).queue@.push(
                (node_id_spec(x as int, y as int, z as int) as usize, value),
            ),
            final(self).spawned == old(self).spawned,
            final(self).states == old(self).states,
            final(self).events_processed == old(self).events_processed,
            final(self).current_time == old(self).current_time,
    {
        let nid = node_id(&Coord { x, y, z });
        self.queue.push((nid as usize, value));
    }

    /// Deliver queued events in order, up to `max_events` of them (all of
    /// them when `max_events <= 0`), and return how many were delivered.
    pub fn run(&mut self, max_events: i32) -> (r: i32)
        requires
            old(self).wf(),
            old(self).queue@.len() <= i32::MAX,
        ensures
            final(self).wf(),
            r as int == run_consumes(old(self).queue@.len() as int, max_events as int),
            final(self).spawned@ == old(self).spawned@,
            final(self).states@ == deliver_upto(
                old(self).spawned@,
                old(self).states@,
                old(self).queue@,
                r as int,
            ),
            final(self).queue@ == old(self).queue@.skip(r as int),
            final(self).events_processed as int == sat_add_u64(
                old(self).events_processed as int,
                r as int,
            ),
            final(self).current_time as int == sat_add_u64(old(self).current_time as int, r as int),
    {
        let qlen = self.queue.len();
        let consume: usize = if max_events <= 0 {
            qlen
        } else if qlen <= max_events as usize {
            qlen
        } else {
            max_events as usize
        };
        let ghost spawned0 = self.spawned@;
        let ghost states0 = self.states@;
        let ghost queue0 = self.queue@;
        let ghost ep0 = self.events_processed;
        let ghost ct0 = self.current_time;
        let mut k: usize = 0;
        while k < consume
            invariant
                self.wf(),
                consume <= queue0.len(),
                k <= consume,
                self.spawned@ == spawned0,
                self.queue@ == queue0,
                self.events_processed == ep0,
                self.current_time == ct0,
                self.states@ == deliver_upto(spawned0, states0, queue0, k as int),
            decreases consume - k,
        {
            let (nid, value) = self.queue[k];
            // Locate the first process spawned at this node, if any.
            let mut i: usize = 0;
            let mut found: bool = false;
            while i < self.spawned.len() && !found
                invariant
                    self.wf(),
                    self.spawned@ == spawned0,
                    i <= spawned0.len(),
                    !found ==> forall|j: int| 0 <= j < i ==> spawned0[j] != nid,
                    found ==> i < spawned0.len() && spawned0[i as int] == nid && forall|j: int|
                        0 <= j < i ==> spawned0[j] != nid,
                decreases spawned0.len() - i + (if found {
                    0int
                } else {
                    1int
                }),
            {
                if self.spawned[i] == nid {
                    found = true;
                } else {
                    i += 1;
                }
            }
            proof {
                lemma_first_occurrence_at(
                    spawned0,
                    nid,
                    if found {
                        i as int
                    } else {
                        spawned0.len() as int
                    },
                );
            }
            if found {
                let cur = self.states[i];
                let updated = add_i32_saturating(cur, value);
                self.states[i] = updated;
            }
            proof {
                assert(self.states@ == deliver_upto(spawned0, states0, queue0, k + 1));
            }
            k += 1;
        }
        let rest = self.queue.split_off(consume);
        self.queue = rest;
        self.events_processed = add_u64_saturating(self.events_processed, consume as u64);
        self.current_time = add_u64_saturating(self.current_time, consume as u64);
        consume as i32
    }

    /// Total events delivered over the engine's lifetime.
    pub fn events_processed(&self) -> (r: u64)
        ensures
            r == self.events_processed,
    {
        self.events_processed
    }

    /// The engine clock.
    pub fn current_time(&self) -> (r: u64)
        ensures
            r == self.current_time,
    {
        self.current_time
    }

    /// How many processes have been spawned.
    pub fn process_count(&self) -> (r: usize)
        ensures
            r == self.spawned@.len(),
    {
        self.spawned.len()
    }

    /// The state of the process at node `pid`, or 0 when no process was
    /// spawned there (or `pid` is not a node id at all).
    pub fn process_state(&self, pid: i32) -> (r: i32)
        requires
            self.wf(),
        ensures
            pid >= 0 ==> r as int == state_of(self.spawned@, self.states@, pid as usize),
            pid < 0 ==> r == 0,
    {
        if pid < 0 {
            return 0;
        }
        let nid = pid as usize;
        let mut i: usize = 0;
        while i < self.spawned.len()
            invariant
                self.wf(),
                pid >= 0,
                nid == pid as usize,
                i <= self.spawned@.len(),
                forall|j: int| 0 <= j < i ==> self.spawned@[j] != nid,
            decreases self.spawned@.len() - i,
        {
            if self.spawned[i] == nid {
                proof {
                    lemma_first_occurrence_at(self.spawned@, nid, i as int);
                }
                return self.states[i];
            }
            i += 1;
        }
        proof {
            lemma_first_occurrence_at(self.spawned@, nid, self.spawned@.len() as int);
        }
        0
    }
}

} // verus!
