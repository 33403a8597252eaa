//! A deterministic fill-then-readback sweep: insert `limit` entries with
//! square-numbered keys and counting values, then look every key up again in
//! the same order and check that each value reads back after the two-cycle
//! pipeline latency.  A simple smoke check next to the randomized engine.

use vstd::prelude::*;

use crate::oracle::SignalPlan;

verus! {

/// What one sweep cycle hands back to the driving loop.
#[derive(Clone, Copy, PartialEq, Eq, Structural, Debug)]
pub struct SweepOutcome {
    /// The signal assignments to drive this cycle.
    pub plan: SignalPlan,
    /// When set, the device must report a valid lookup with exactly this
    /// value this cycle; a disagreement is a device defect.
    pub expect: Option<u32>,
    /// The sweep has issued and checked everything.
    pub done: bool,
}

/// One cycle of the sweep.  While fewer than `limit` inserts have been
/// issued, insert key `step * step` with value `step` whenever the busy bit
/// is clear.  Afterwards, look up key `(step - limit) * (step - limit)`
/// each cycle; from two cycles into the readback the value issued two
/// cycles earlier must read back.  The square keys keep the key space
/// non-contiguous; `limit` stays below 65535 so every square fits 32 bits.
pub fn sweep_step(step: &mut usize, limit: usize, busy_insert: bool) -> (r: SweepOutcome)
    requires
        1 <= limit <= 65534,
        *old(step) < 2 * limit + 2,
    ensures
        !r.plan.modify && !r.plan.del,
        *old(step) < limit && busy_insert ==> ({
            &&& *final(step) == *old(step)
            &&& !r.plan.insert && !r.plan.lookup
            &&& r.expect is None
            &&& !r.done
        }),
        *old(step) < limit && !busy_insert ==> ({
            &&& *final(step) == *old(step) + 1
            &&& r.plan.insert && !r.plan.lookup
            &&& r.plan.insert_key == ((*old(step) * *old(step)) as u32)
            &&& r.plan.insert_value == (*old(step) as u32)
            &&& r.expect is None
            &&& !r.done
        }),
        *old(step) >= limit ==> ({
            let d = *old(step) - limit;
            &&& *final(step) == *old(step) + 1
            &&& r.plan.lookup && !r.plan.insert
            &&& r.plan.lookup_key == ((d * d) as u32)
            &&& r.expect == (if *old(step) >= limit + 2 {
                Some((*old(step) - 2 - limit) as u32)
            } else {
                None::<u32>
            })
            &&& r.done == (*final(step) == 2 * limit + 2)
        }),
{
    let mut plan = SignalPlan::idle();
    if *step < limit {
        if !busy_insert {
            let s = *step;
            proof {
                assert(s * s <= 65533 * 65533) by (nonlinear_arith)
                    requires
                        s <= 65533,
                ;
            }
            plan.insert = true;
            plan.insert_key = (s * s) as u32;
            plan.insert_value = s as u32;
            *step = *step + 1;
        }
        SweepOutcome { plan, expect: None, done: false }
    } else {
        let d = *step - limit;
        proof {
            assert(d * d <= 65535 * 65535) by (nonlinear_arith)
                requires
                    d <= 65535,
            ;
        }
        plan.lookup = true;
        plan.lookup_key = (d * d) as u32;
        let expect: Option<u32> = if *step >= limit + 2 {
            Some((*step - 2 - limit) as u32)
        } else {
            None
        };
        *step = *step + 1;
        SweepOutcome { plan, expect, done: *step == 2 * limit + 2 }
    }
}

} // verus!
