//! Frame orchestration state that is independent of the floating-point
//! simulation: the once-generated noise table, the shared input queue, and
//! the fixed-step schedule that decouples physics from the display rate.
use vstd::prelude::*;

use crate::input::InputQueue;
use crate::noise::TABLE_LEN;
use crate::noise::generate;
use crate::noise::table_entry;

verus! {

/// Milliseconds of one reference physics tick: the simulation is
/// normalized to twenty ticks per second.
pub const TICK_MS: u32 = 50;

/// The engine-owned state the frame loop threads through every invocation:
/// the lattice table, generated once from a seed and immutable afterwards,
/// and the queue of input events pending for the next frame.
pub struct Engine {
    /// The noise table, `None` until the first frame that needs it.
    pub table: Option<Vec<u32>>,
    /// Events pushed by the host since the last frame.
    pub inputs: InputQueue,
}

impl Engine {
    /// The table has been generated from `seed`.
    pub open spec fn table_generated(&self, seed: u32) -> bool {
        &&& self.table is Some
        &&& self.table->0@.len() == TABLE_LEN
        &&& forall|i: int| 0 <= i < TABLE_LEN ==> self.table->0@[i] == table_entry(seed, i)
    }

    /// An engine with no table and no pending input.
    pub fn new() -> (engine: Engine)
        ensures
            engine.table is None,
            engine.inputs@ == Seq::<(u8, u8)>::empty(),
    {
        Engine { table: None, inputs: InputQueue::new() }
    }

    /// Generates the noise table from `seed` if it has not been generated
    /// yet; an already generated table is left exactly as it is.
    pub fn ensure_table(&mut self, seed: u32)
        ensures
            old(self).table is None ==> final(self).table_generated(seed),
            old(self).table is Some ==> final(self).table == old(self).table,
            final(self).inputs == old(self).inputs,
    {
        if self.table.is_none() {
            self.table = Some(generate(seed));
        }
    }
}

/// How many physics sub-steps a frame that took `elapsed_ms` runs: full
/// reference ticks, plus the milliseconds of a final partial step. A frame
/// faster than one tick still gets that partial step, so the simulation
/// advances every frame.
pub fn substeps(elapsed_ms: u32) -> (schedule: (u32, u32))
    ensures
        schedule.0 == elapsed_ms / TICK_MS,
        schedule.1 == elapsed_ms % TICK_MS,
        schedule.0 * TICK_MS + schedule.1 == elapsed_ms,
        schedule.1 < TICK_MS,
{
    (elapsed_ms / TICK_MS, elapsed_ms % TICK_MS)
}

} // verus!
