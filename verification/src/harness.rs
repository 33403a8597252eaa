//! The harness session: the reference model, the recency tracker, the queue
//! of outstanding lookup records and the run statistics, bundled into one
//! exclusively owned object, together with the per-cycle decisions of the
//! fill and steady phases.
//!
//! Each step function takes the device outputs sampled this cycle as plain
//! values and returns the signal assignments to drive, so the whole decision
//! logic is verified for every possible device behaviour and every random
//! draw.

use vstd::prelude::*;

use std::collections::VecDeque;

use crate::model::{
    has_key, key_index, swap_removed, value_of, lemma_key_index_of, RefModel,
};
use crate::oracle::{
    deferred_of, record_passes, DeferredWrite, Expectation, LookupRecord, ResolveReport,
    SignalPlan,
};
use crate::recency::{pushed, RecencyTracker};
use crate::rng::{random_bool, random_index, random_u32};

verus! {

/// The number of keys the fill phase makes resident before steady state.
pub const DEFAULT_CAPACITY: usize = 15000;

/// The number of steady-phase operations after which a run completes.
pub const DEFAULT_BUDGET: usize = 50000;

/// Monotonic diagnostic counters reported at the end of a run.
#[derive(Clone, Copy, PartialEq, Eq, Structural, Debug)]
pub struct RunStats {
    pub num_lookups_checked: usize,
    pub num_lookups_matched: usize,
    pub num_modifications: usize,
    pub num_deletes: usize,
    pub num_idles: usize,
    pub num_recents: usize,
    pub num_inserts: usize,
}

impl RunStats {
    pub open spec fn is_zero(&self) -> bool {
        &&& self.num_lookups_checked == 0
        &&& self.num_lookups_matched == 0
        &&& self.num_modifications == 0
        &&& self.num_deletes == 0
        &&& self.num_idles == 0
        &&& self.num_recents == 0
        &&& self.num_inserts == 0
    }
}

/// The class of operation a steady-phase cycle issues.
#[derive(Clone, Copy, PartialEq, Eq, Structural, Debug)]
pub enum MutationChoice {
    /// Plain lookup; the entry is left as it is.
    KeepValue,
    /// Replace the entry's value with this one once the lookup resolves.
    Replace(u32),
    /// Delete the entry once the lookup resolves.
    Delete,
}

/// The operation menu of a steady-phase cycle.  `LookupPresent` is eligible
/// only while the model holds at least one entry, `LookupRecent` only while
/// the recency tracker is non-empty.
#[derive(Clone, Copy, PartialEq, Eq, Structural, Debug)]
pub enum Operation {
    Idle,
    LookupPresent(MutationChoice),
    LookupAny,
    LookupRecent,
}

/// What one steady-phase cycle hands back to the driving loop.
#[derive(Clone, Copy, PartialEq, Eq, Structural, Debug)]
pub struct StepResult {
    /// The signal assignments to drive this cycle.
    pub plan: SignalPlan,
    /// The verdict on the record that was due, if any.  A failed verdict is
    /// a device defect; the driver is expected to abort on it.
    pub report: ResolveReport,
    /// The steady-phase operation budget has been reached.
    pub done: bool,
}

/// The record enqueued for a lookup of `key` against model content `es`:
/// expected present with the value captured now, or expected absent.
pub open spec fn probe_record(es: Seq<(u32, u32)>, key: u32) -> LookupRecord {
    if has_key(es, key) {
        LookupRecord::Lookup(Some(Expectation { value: value_of(es, key), deferred: None }))
    } else {
        LookupRecord::Lookup(None)
    }
}

/// The record enqueued for a present-lookup of the entry at `index`.
pub open spec fn present_record(es: Seq<(u32, u32)>, index: int, mutation: MutationChoice) -> LookupRecord {
    LookupRecord::Lookup(
        Some(
            Expectation {
                value: es[index].1,
                deferred: match mutation {
                    MutationChoice::KeepValue => None,
                    MutationChoice::Replace(v) => Some(DeferredWrite::Replace(v)),
                    MutationChoice::Delete => Some(DeferredWrite::Delete),
                },
            },
        ),
    )
}

/// The model content after the issue-time half of a present-lookup: a
/// deferred replace or delete is applied to the model immediately at issue,
/// even though the device applies it only when the lookup resolves.
pub open spec fn mutated_model(es: Seq<(u32, u32)>, index: int, mutation: MutationChoice) -> Seq<
    (u32, u32),
> {
    match mutation {
        MutationChoice::KeepValue => es,
        MutationChoice::Replace(v) => es.update(index, (es[index].0, v)),
        MutationChoice::Delete => swap_removed(es, index),
    }
}

/// The statistics after a due record `rec` has been validated against the
/// sampled outputs.
pub open spec fn resolved_stats(s: RunStats, rec: LookupRecord, dut_valid: bool, dut_value: u32) -> RunStats {
    RunStats {
        num_lookups_checked: (s.num_lookups_checked + checked_inc(rec)) as usize,
        num_lookups_matched: (s.num_lookups_matched + matched_inc(rec, dut_valid, dut_value)) as usize,
        num_modifications: (s.num_modifications + modified_inc(rec)) as usize,
        num_deletes: (s.num_deletes + deleted_inc(rec)) as usize,
        num_idles: s.num_idles,
        num_recents: s.num_recents,
        num_inserts: s.num_inserts,
    }
}

pub open spec fn checked_inc(rec: LookupRecord) -> int {
    if rec is Lookup {
        1
    } else {
        0
    }
}

pub open spec fn matched_inc(rec: LookupRecord, dut_valid: bool, dut_value: u32) -> int {
    match rec {
        LookupRecord::Lookup(Some(e)) => if dut_valid && dut_value == e.value {
            1
        } else {
            0
        },
        _ => 0,
    }
}

pub open spec fn modified_inc(rec: LookupRecord) -> int {
    if deferred_of(rec) is Some {
        1
    } else {
        0
    }
}

pub open spec fn deleted_inc(rec: LookupRecord) -> int {
    if deferred_of(rec) == Some(DeferredWrite::Delete) {
        1
    } else {
        0
    }
}

/// The record queue after the cycle's resolution: the oldest record leaves
/// when a third would otherwise be created.
pub open spec fn pending_after_resolve(pending: Seq<LookupRecord>) -> Seq<LookupRecord> {
    if pending.len() == 2 {
        pending.subrange(1, 2)
    } else {
        pending
    }
}

/// The issue-time half of one steady cycle, related to the enqueued record
/// and the driven signals: the record's expected presence and value are the
/// model's for the looked-up key at issue time, and a deferred mutation is
/// applied to the model immediately at issue.
pub open spec fn issue_ok(
    pre: Seq<(u32, u32)>,
    post: Seq<(u32, u32)>,
    rec: LookupRecord,
    plan: SignalPlan,
) -> bool {
    match rec {
        LookupRecord::Idle => !plan.lookup && post == pre,
        LookupRecord::Lookup(exp) => {
            &&& plan.lookup
            &&& (exp is Some <==> has_key(pre, plan.lookup_key))
            &&& match exp {
                None => post == pre,
                Some(e) => {
                    &&& e.value == value_of(pre, plan.lookup_key)
                    &&& post == (match e.deferred {
                        None => pre,
                        Some(DeferredWrite::Replace(v)) => pre.update(
                            key_index(pre, plan.lookup_key),
                            (plan.lookup_key, v),
                        ),
                        Some(DeferredWrite::Delete) => swap_removed(
                            pre,
                            key_index(pre, plan.lookup_key),
                        ),
                    })
                },
            }
        },
    }
}

/// The model content across one whole steady cycle: some intermediate
/// content `mid` follows from the issued record (`issue_ok`), and the
/// opportunistic insert, when the plan carries one, appends a key fresh at
/// that point; otherwise the cycle leaves `mid` as the final content.
pub open spec fn step_model_ok(
    pre: Seq<(u32, u32)>,
    post: Seq<(u32, u32)>,
    rec: LookupRecord,
    plan: SignalPlan,
) -> bool {
    exists|mid: Seq<(u32, u32)>|
        {
            &&& #[trigger] issue_ok(pre, mid, rec, plan)
            &&& (if plan.insert {
                !has_key(mid, plan.insert_key) && post == mid.push(
                    (plan.insert_key, plan.insert_value),
                )
            } else {
                post == mid
            })
        }
}

/// A 32-bit key that is not resident in the model.  Random draws are
/// retried first; the key space is sparse next to any capacity this harness
/// runs with, so in practice the first draw succeeds.  A bounded sweep of
/// the smallest keys afterwards guarantees a result either way: the model
/// holds fewer keys than the key space, so some key below its resident
/// count (inclusive) must be free.
pub fn fresh_key(model: &RefModel) -> (k: u32)
    requires
        model.wf(),
        model@.len() < u32::MAX as usize,
    ensures
        !has_key(model@, k),
{
    let mut tries: usize = 0;
    while tries < 64
        invariant
            tries <= 64,
        decreases 64 - tries,
    {
        let k = random_u32();
        if !model.contains_key(k) {
            return k;
        }
        tries = tries + 1;
    }
    let ghost n = model@.len();
    let mut c: u32 = 0;
    loop
        invariant
            model.wf(),
            model@.len() == n,
            n < u32::MAX as usize,
            c <= n,
            forall|k: u32| k < c ==> #[trigger] has_key(model@, k),
        decreases n - c,
    {
        if !model.contains_key(c) {
            return c;
        }
        proof {
            crate::model::lemma_count_distinct_keys(model@, (c + 1) as nat);
        }
        c = c + 1;
    }
}

/// The exclusively owned session state threaded through the driving loop.
pub struct Harness {
    /// The configured number of resident keys; fixed for the run.
    pub capacity: usize,
    /// The steady-phase operation budget; fixed for the run.
    pub budget: usize,
    /// The fill phase has completed.
    pub filled: bool,
    /// Steady-phase operations performed so far.
    pub ops: usize,
    /// The authoritative mirror of the device's logical content.
    pub model: RefModel,
    /// Outstanding lookup records, oldest first; at most two at once.
    pub pending: VecDeque<LookupRecord>,
    /// Recently accessed keys, for biased re-selection.
    pub recents: RecencyTracker,
    /// Diagnostic counters.
    pub stats: RunStats,
}

impl Harness {
    /// The session invariant: unique resident keys, resident count within
    /// the configured capacity in either phase, at most two outstanding
    /// records, and a bounded recency tracker.
    pub open spec fn wf(&self) -> bool {
        &&& self.model.wf()
        &&& self.model@.len() <= self.capacity
        &&& (!self.filled ==> self.model@.len() < self.capacity)
        &&& self.pending@.len() <= 2
        &&& self.recents.wf()
        &&& self.capacity >= 1
        &&& self.capacity <= u32::MAX as usize
    }

    /// Every counter is bounded by the operations performed, which rules out
    /// counter overflow for as long as the budget lasts.
    pub open spec fn stats_ok(&self) -> bool {
        &&& self.stats.num_lookups_checked <= self.ops
        &&& self.stats.num_lookups_matched <= self.ops
        &&& self.stats.num_modifications <= self.ops
        &&& self.stats.num_deletes <= self.ops
        &&& self.stats.num_idles <= self.ops
        &&& self.stats.num_recents <= self.ops
        &&& self.stats.num_inserts <= self.ops
    }

    /// The counters touched by a resolution can still count one more.
    pub open spec fn stats_headroom(&self) -> bool {
        &&& self.stats.num_lookups_checked < usize::MAX
        &&& self.stats.num_lookups_matched < usize::MAX
        &&& self.stats.num_modifications < usize::MAX
        &&& self.stats.num_deletes < usize::MAX
    }

    pub fn new(capacity: usize, budget: usize) -> (h: Harness)
        requires
            capacity >= 1,
            capacity <= u32::MAX as usize,
            budget >= 1,
        ensures
            h.wf(),
            h.stats_ok(),
            h.capacity == capacity,
            h.budget == budget,
            !h.filled,
            h.ops == 0,
            h.model@ == Seq::<(u32, u32)>::empty(),
            h.pending@ == Seq::<LookupRecord>::empty(),
            h.recents@ == Seq::<u32>::empty(),
            h.stats.is_zero(),
    {
        Harness {
            capacity,
            budget,
            filled: false,
            ops: 0,
            model: RefModel::new(),
            pending: VecDeque::new(),
            recents: RecencyTracker::new(),
            stats: RunStats {
                num_lookups_checked: 0,
                num_lookups_matched: 0,
                num_modifications: 0,
                num_deletes: 0,
                num_idles: 0,
                num_recents: 0,
                num_inserts: 0,
            },
        }
    }

    /// A session with the configuration the full run uses.
    pub fn new_default() -> (h: Harness)
        ensures
            h.wf(),
            h.stats_ok(),
            h.capacity == DEFAULT_CAPACITY,
            h.budget == DEFAULT_BUDGET,
            !h.filled,
            h.ops == 0,
            h.model@ == Seq::<(u32, u32)>::empty(),
            h.pending@ == Seq::<LookupRecord>::empty(),
            h.recents@ == Seq::<u32>::empty(),
            h.stats.is_zero(),
    {
        Harness::new(DEFAULT_CAPACITY, DEFAULT_BUDGET)
    }

    /// Validate whatever record is now due.  A record becomes due exactly
    /// when a third would be created, two cycles after its issue; the
    /// deferred write it carries must be driven at the device this cycle.
    pub fn resolve_due(&mut self, dut_valid: bool, dut_value: u32) -> (r: ResolveReport)
        requires
            old(self).pending@.len() <= 2,
            old(self).stats_headroom(),
        ensures
            final(self).model == old(self).model,
            final(self).recents == old(self).recents,
            final(self).filled == old(self).filled,
            final(self).ops == old(self).ops,
            final(self).capacity == old(self).capacity,
            final(self).budget == old(self).budget,
            final(self).pending@ == pending_after_resolve(old(self).pending@),
            r.due == (old(self).pending@.len() == 2),
            old(self).pending@.len() < 2 ==> ({
                &&& final(self).stats == old(self).stats
                &&& r.pass
                &&& r.deferred is None
            }),
            old(self).pending@.len() == 2 ==> ({
                let rec = old(self).pending@[0];
                &&& r.pass == record_passes(rec, dut_valid, dut_value)
                &&& r.deferred == deferred_of(rec)
                &&& final(self).stats == resolved_stats(old(self).stats, rec, dut_valid, dut_value)
            }),
    {
        if self.pending.len() == 2 {
            let rec = match self.pending.pop_front() {
                Some(rec) => rec,
                None => unreached(),
            };
            let pass = crate::oracle::check_record(&rec, dut_valid, dut_value);
            let mut deferred: Option<DeferredWrite> = None;
            match rec {
                LookupRecord::Lookup(exp) => {
                    self.stats.num_lookups_checked = self.stats.num_lookups_checked + 1;
                    match exp {
                        Some(e) => {
                            if dut_valid && dut_value == e.value {
                                self.stats.num_lookups_matched = self.stats.num_lookups_matched
                                    + 1;
                            }
                            match e.deferred {
                                Some(DeferredWrite::Replace(_)) => {
                                    self.stats.num_modifications = self.stats.num_modifications
                                        + 1;
                                },
                                Some(DeferredWrite::Delete) => {
                                    self.stats.num_modifications = self.stats.num_modifications
                                        + 1;
                                    self.stats.num_deletes = self.stats.num_deletes + 1;
                                },
                                None => {},
                            }
                            deferred = e.deferred;
                        },
                        None => {},
                    }
                },
                LookupRecord::Idle => {},
            }
            ResolveReport { due: true, pass, deferred }
        } else {
            ResolveReport { due: false, pass: true, deferred: None }
        }
    }

    /// Enqueue the record of a cycle that issues no lookup.
    pub fn issue_idle(&mut self)
        requires
            old(self).pending@.len() <= 1,
            old(self).stats.num_idles < usize::MAX,
        ensures
            final(self).pending@ == old(self).pending@.push(LookupRecord::Idle),
            final(self).model == old(self).model,
            final(self).recents == old(self).recents,
            final(self).filled == old(self).filled,
            final(self).ops == old(self).ops,
            final(self).capacity == old(self).capacity,
            final(self).budget == old(self).budget,
            final(self).stats.num_idles == old(self).stats.num_idles + 1,
            final(self).stats.num_lookups_checked == old(self).stats.num_lookups_checked,
            final(self).stats.num_lookups_matched == old(self).stats.num_lookups_matched,
            final(self).stats.num_modifications == old(self).stats.num_modifications,
            final(self).stats.num_deletes == old(self).stats.num_deletes,
            final(self).stats.num_recents == old(self).stats.num_recents,
            final(self).stats.num_inserts == old(self).stats.num_inserts,
    {
        self.pending.push_back(LookupRecord::Idle);
        self.stats.num_idles = self.stats.num_idles + 1;
    }

    /// Issue a lookup for an arbitrary key: probe the model and enqueue a
    /// record expecting exactly what the model holds for the key now.
    pub fn issue_lookup_key(&mut self, key: u32)
        requires
            old(self).model.wf(),
            old(self).pending@.len() <= 1,
        ensures
            final(self).pending@ == old(self).pending@.push(probe_record(old(self).model@, key)),
            final(self).model == old(self).model,
            final(self).recents == old(self).recents,
            final(self).filled == old(self).filled,
            final(self).ops == old(self).ops,
            final(self).capacity == old(self).capacity,
            final(self).budget == old(self).budget,
            final(self).stats == old(self).stats,
    {
        let rec = match self.model.get(key) {
            Some(v) => LookupRecord::Lookup(Some(Expectation { value: v, deferred: None })),
            None => LookupRecord::Lookup(None),
        };
        self.pending.push_back(rec);
    }

    /// Issue a lookup for the resident entry at `index`, optionally with a
    /// deferred mutation.  The mutation is applied to the model immediately
    /// at issue time, even though the device applies it only once the lookup
    /// resolves: validation always compares against the value captured here,
    /// and convergence is preserved for the next access to the key.  The key
    /// is appended to the recency tracker.
    pub fn issue_lookup_present(&mut self, index: usize, mutation: MutationChoice) -> (key: u32)
        requires
            old(self).model.wf(),
            old(self).recents.wf(),
            index < old(self).model@.len(),
            old(self).pending@.len() <= 1,
        ensures
            final(self).model.wf(),
            key == old(self).model@[index as int].0,
            final(self).model@ == mutated_model(old(self).model@, index as int, mutation),
            final(self).model@.len() <= old(self).model@.len(),
            final(self).pending@ == old(self).pending@.push(
                present_record(old(self).model@, index as int, mutation),
            ),
            pushed(old(self).recents@, final(self).recents@, key),
            final(self).recents.wf(),
            final(self).filled == old(self).filled,
            final(self).ops == old(self).ops,
            final(self).capacity == old(self).capacity,
            final(self).budget == old(self).budget,
            final(self).stats == old(self).stats,
    {
        let (key, old_val) = self.model.entry_at(index);
        proof {
            lemma_key_index_of(self.model@, index as int);
        }
        let deferred: Option<DeferredWrite> = match mutation {
            MutationChoice::KeepValue => None,
            MutationChoice::Replace(v) => {
                let _ = self.model.replace_value(key, v);
                Some(DeferredWrite::Replace(v))
            },
            MutationChoice::Delete => {
                let _ = self.model.remove(key);
                Some(DeferredWrite::Delete)
            },
        };
        self.pending.push_back(
            LookupRecord::Lookup(Some(Expectation { value: old_val, deferred })),
        );
        self.recents.push(key);
        key
    }

    /// One cycle of the fill phase: while the device is not backpressuring
    /// inserts, make a freshly generated unique key resident, mirror it into
    /// the model, and transition to the steady phase once the resident count
    /// reaches the configured capacity.  Each fill insert is unique and none
    /// is issued while the busy bit is set, so the phase issues exactly
    /// `capacity` inserts in all.
    pub fn fill_step(&mut self, busy_insert: bool) -> (plan: SignalPlan)
        requires
            old(self).wf(),
            !old(self).filled,
        ensures
            final(self).wf(),
            final(self).capacity == old(self).capacity,
            final(self).budget == old(self).budget,
            final(self).ops == old(self).ops,
            final(self).stats == old(self).stats,
            final(self).pending == old(self).pending,
            final(self).recents == old(self).recents,
            !plan.lookup && !plan.modify && !plan.del,
            busy_insert ==> ({
                &&& final(self).model == old(self).model
                &&& !plan.insert
                &&& !final(self).filled
            }),
            !busy_insert ==> ({
                &&& plan.insert
                &&& !has_key(old(self).model@, plan.insert_key)
                &&& final(self).model@ == old(self).model@.push(
                    (plan.insert_key, plan.insert_value),
                )
                &&& final(self).filled == (final(self).model@.len() == final(self).capacity)
            }),
    {
        let mut plan = SignalPlan::idle();
        if !busy_insert {
            let key = fresh_key(&self.model);
            let value = random_u32();
            plan.insert = true;
            plan.insert_key = key;
            plan.insert_value = value;
            self.model.insert(key, value);
            if self.model.len() == self.capacity {
                self.filled = true;
            }
        }
        plan
    }

    /// Choose this cycle's operation uniformly from the eligible menu:
    /// idle, the three present-lookup variants (only while the model is
    /// non-empty), a fully random key (almost always a miss given the sparse
    /// key space), and a recently accessed key (only while the tracker is
    /// non-empty).
    fn choose_operation(&self) -> (op: Operation)
        ensures
            op matches Operation::LookupPresent(_) ==> self.model@.len() > 0,
            op is LookupRecent ==> self.recents@.len() > 0,
    {
        let has_present = self.model.len() > 0;
        let has_recent = !self.recents.is_empty();
        let count: usize = 2 + (if has_present {
            3usize
        } else {
            0usize
        }) + (if has_recent {
            1usize
        } else {
            0usize
        });
        let pick = random_index(count);
        if pick == 0 {
            Operation::Idle
        } else if pick == 1 {
            Operation::LookupAny
        } else if has_present && pick == 2 {
            Operation::LookupPresent(MutationChoice::KeepValue)
        } else if has_present && pick == 3 {
            Operation::LookupPresent(MutationChoice::Replace(random_u32()))
        } else if has_present && pick == 4 {
            Operation::LookupPresent(MutationChoice::Delete)
        } else {
            Operation::LookupRecent
        }
    }

    /// One cycle of the steady phase.  First the record now due is resolved:
    /// its verdict is reported and the deferred write it carries is driven.
    /// Then one operation is drawn from the eligible menu and issued, its
    /// record enqueued with the expectation captured from the model at issue
    /// time.  Independently, with even odds, an opportunistic insert of a
    /// fresh key is issued if the resident count is below capacity and the
    /// busy bit is clear.  (An opportunistic insert may target a key whose
    /// delete from an earlier lookup is still in flight at the device — a
    /// known, intentionally preserved generation gap.)
    pub fn steady_step(&mut self, dut_valid: bool, dut_value: u32, busy_insert: bool) -> (r: StepResult)
        requires
            old(self).wf(),
            old(self).stats_ok(),
            old(self).filled,
            old(self).ops < old(self).budget,
        ensures
            final(self).wf(),
            final(self).stats_ok(),
            final(self).filled,
            final(self).capacity == old(self).capacity,
            final(self).budget == old(self).budget,
            final(self).ops == old(self).ops + 1,
            r.done == (final(self).ops == final(self).budget),
            r.report.due == (old(self).pending@.len() == 2),
            old(self).pending@.len() == 2 ==> ({
                let rec = old(self).pending@[0];
                &&& r.report.pass == record_passes(rec, dut_valid, dut_value)
                &&& r.report.deferred == deferred_of(rec)
            }),
            old(self).pending@.len() < 2 ==> r.report.pass && r.report.deferred is None,
            r.plan.modify == (r.report.deferred is Some),
            r.plan.del == (r.report.deferred == Some(DeferredWrite::Delete)),
            (match r.report.deferred {
                Some(DeferredWrite::Replace(v)) => r.plan.mod_value == v,
                _ => true,
            }),
            final(self).pending@.len() >= 1,
            final(self).pending@ == pending_after_resolve(old(self).pending@).push(
                final(self).pending@.last(),
            ),
            step_model_ok(old(self).model@, final(self).model@, final(self).pending@.last(), r.plan),
            r.plan.insert ==> !busy_insert,
    {
        let ghost pre = self.model@;
        let mut plan = SignalPlan::idle();
        let report = self.resolve_due(dut_valid, dut_value);
        match report.deferred {
            Some(DeferredWrite::Replace(v)) => {
                plan.modify = true;
                plan.mod_value = v;
            },
            Some(DeferredWrite::Delete) => {
                plan.modify = true;
                plan.del = true;
            },
            None => {},
        }
        let op = self.choose_operation();
        match op {
            Operation::Idle => {
                self.issue_idle();
            },
            Operation::LookupAny => {
                let key = random_u32();
                plan.lookup = true;
                plan.lookup_key = key;
                self.issue_lookup_key(key);
            },
            Operation::LookupRecent => {
                let key = self.recents.pick();
                plan.lookup = true;
                plan.lookup_key = key;
                self.issue_lookup_key(key);
                self.stats.num_recents = self.stats.num_recents + 1;
            },
            Operation::LookupPresent(mutation) => {
                let index = random_index(self.model.len());
                let key = self.issue_lookup_present(index, mutation);
                plan.lookup = true;
                plan.lookup_key = key;
                proof {
                    lemma_key_index_of(pre, index as int);
                }
            },
        }
        let ghost mid = self.model@;
        let ghost rec = self.pending@.last();
        proof {
            assert(issue_ok(pre, mid, rec, plan));
        }
        if !busy_insert && self.model.len() < self.capacity {
            if random_bool() {
                let key = fresh_key(&self.model);
                let value = random_u32();
                plan.insert = true;
                plan.insert_key = key;
                plan.insert_value = value;
                self.model.insert(key, value);
                self.stats.num_inserts = self.stats.num_inserts + 1;
                self.recents.push(key);
            }
        }
        proof {
            assert(issue_ok(pre, mid, rec, plan));
            if plan.insert {
                assert(!has_key(mid, plan.insert_key) && self.model@ == mid.push(
                    (plan.insert_key, plan.insert_value),
                ));
            } else {
                assert(self.model@ == mid);
            }
            assert(rec == self.pending@.last());
            assert(step_model_ok(pre, self.model@, rec, plan));
        }
        self.ops = self.ops + 1;
        let done = self.ops == self.budget;
        StepResult { plan, report, done }
    }
}

/// For any lookup of a key, the record captured at issue passes validation
/// exactly when the device's valid flag equals the reference model's
/// presence for that key at issue time, and, for a present key, the
/// device's value equals the model's value at issue time.
pub proof fn lemma_probe_validation_exact(
    es: Seq<(u32, u32)>,
    key: u32,
    dut_valid: bool,
    dut_value: u32,
)
    ensures
        record_passes(probe_record(es, key), dut_valid, dut_value) <==> ((dut_valid == has_key(
            es,
            key,
        )) && (has_key(es, key) ==> dut_value == value_of(es, key))),
{
}

/// For a present-lookup of the entry at `index`, the record passes
/// validation exactly when the device reports valid with the value that
/// entry held at issue time — whatever mutation the lookup defers.
pub proof fn lemma_present_validation_exact(
    es: Seq<(u32, u32)>,
    index: int,
    mutation: MutationChoice,
    dut_valid: bool,
    dut_value: u32,
)
    requires
        0 <= index < es.len(),
    ensures
        record_passes(present_record(es, index, mutation), dut_valid, dut_value) <==> (dut_valid
            && dut_value == es[index].1),
{
}

/// The fixed pipeline latency, seen on the record queue: a record enqueued
/// at one steady cycle is exactly the record that becomes due two cycles
/// later.  With `steady_step`'s contract — the enqueued record carries the
/// model's presence and value for the looked-up key at issue time, and the
/// due record passes exactly when the device's valid flag equals that
/// presence and, for a present lookup, the device's value equals the one
/// captured — this pins the validated output of every lookup to the model's
/// content at its issue time.
pub proof fn lemma_two_cycle_latency(
    q0: Seq<LookupRecord>,
    a: LookupRecord,
    b: LookupRecord,
)
    requires
        q0.len() == 2,
    ensures
        ({
            let q1 = pending_after_resolve(q0).push(a);
            let q2 = pending_after_resolve(q1).push(b);
            q2[0] == a && q2.len() == 2
        }),
{
    let q1 = pending_after_resolve(q0).push(a);
    assert(q1.len() == 2);
    assert(q1[1] == a);
    let q2 = pending_after_resolve(q1).push(b);
    assert(q2[0] == q1[1]);
}

} // verus!
