//! The latency-aware oracle's data: the record created for every issued
//! cycle, the verdict computed when a record becomes due, and the signal
//! assignments a cycle asks the device driver to apply.
//!
//! Every lookup result becomes observable a fixed two cycles after issue, so
//! at most two records are outstanding at once; the oldest is validated when
//! a third would be created.

use vstd::prelude::*;

verus! {

/// The device-side write that a lookup defers until its result is due:
/// replace the value of the key just looked up, or delete that key.
#[derive(Clone, Copy, PartialEq, Eq, Structural, Debug)]
pub enum DeferredWrite {
    Replace(u32),
    Delete,
}

/// What the device must report for a lookup, captured at issue time.
#[derive(Clone, Copy, PartialEq, Eq, Structural, Debug)]
pub struct Expectation {
    /// The value the reference model held for the key at issue time.
    pub value: u32,
    /// A mutation to drive at the device once the lookup resolves.
    pub deferred: Option<DeferredWrite>,
}

/// One issued cycle, validated two cycles later.
#[derive(Clone, Copy, PartialEq, Eq, Structural, Debug)]
pub enum LookupRecord {
    /// No lookup was issued this cycle; nothing is expected of the device.
    Idle,
    /// A lookup was issued; `None` means the key was absent from the
    /// reference model at issue time, `Some` carries the expected value.
    Lookup(Option<Expectation>),
}

/// Whether device outputs sampled when a record is due agree with it: the
/// valid flag must equal the expected presence, and a present lookup's value
/// must match the value captured at issue time.  Idle records pass trivially.
pub open spec fn record_passes(rec: LookupRecord, dut_valid: bool, dut_value: u32) -> bool {
    match rec {
        LookupRecord::Idle => true,
        LookupRecord::Lookup(None) => !dut_valid,
        LookupRecord::Lookup(Some(e)) => dut_valid && dut_value == e.value,
    }
}

/// The deferred write a record carries, if any.
pub open spec fn deferred_of(rec: LookupRecord) -> Option<DeferredWrite> {
    match rec {
        LookupRecord::Lookup(Some(e)) => e.deferred,
        _ => None,
    }
}

/// Validate a due record against the sampled device outputs.  Any `false`
/// here is a device defect and the caller is expected to abort.
pub fn check_record(rec: &LookupRecord, dut_valid: bool, dut_value: u32) -> (pass: bool)
    ensures
        pass == record_passes(*rec, dut_valid, dut_value),
{
    match rec {
        LookupRecord::Idle => true,
        LookupRecord::Lookup(None) => !dut_valid,
        LookupRecord::Lookup(Some(e)) => dut_valid && dut_value == e.value,
    }
}

/// The signal assignments one cycle asks the device driver to apply.  Fields
/// that are `false` or irrelevant are driven to their idle defaults.
#[derive(Clone, Copy, PartialEq, Eq, Structural, Debug)]
pub struct SignalPlan {
    pub lookup: bool,
    pub lookup_key: u32,
    pub insert: bool,
    pub insert_key: u32,
    pub insert_value: u32,
    pub modify: bool,
    pub mod_value: u32,
    pub del: bool,
}

impl SignalPlan {
    /// All signals at their idle defaults.
    pub fn idle() -> (p: SignalPlan)
        ensures
            p == (SignalPlan {
                lookup: false,
                lookup_key: 0,
                insert: false,
                insert_key: 0,
                insert_value: 0,
                modify: false,
                mod_value: 0,
                del: false,
            }),
    {
        SignalPlan {
            lookup: false,
            lookup_key: 0,
            insert: false,
            insert_key: 0,
            insert_value: 0,
            modify: false,
            mod_value: 0,
            del: false,
        }
    }
}

/// The outcome of resolving whatever record was due this cycle.
#[derive(Clone, Copy, PartialEq, Eq, Structural, Debug)]
pub struct ResolveReport {
    /// A record was due and was validated.
    pub due: bool,
    /// The validation verdict; `true` when nothing was due.
    pub pass: bool,
    /// The deferred write to drive this cycle, carried by the resolved
    /// record.
    pub deferred: Option<DeferredWrite>,
}

} // verus!
