use std::collections::HashMap;
use std::collections::VecDeque;

use hashmap_harness::harness::{Harness, MutationChoice, DEFAULT_BUDGET, DEFAULT_CAPACITY};
use hashmap_harness::oracle::{DeferredWrite, ResolveReport, SignalPlan};

/// A software stand-in for the device: an associative store whose lookup
/// results become observable two cycles after issue.  Writes driven in a
/// cycle land on that cycle's clock edge, after the cycle's outputs were
/// sampled; a deferred modify or delete targets the key whose lookup
/// resolved that cycle.
struct StubDut {
    map: HashMap<u32, u32>,
    pipe: VecDeque<Option<u32>>,
}

impl StubDut {
    fn new() -> StubDut {
        StubDut { map: HashMap::new(), pipe: VecDeque::new() }
    }

    /// The outputs sampled at the start of a cycle: the result of the
    /// lookup issued two cycles earlier.
    fn sample(&self) -> (bool, u32) {
        if self.pipe.len() == 2 {
            if let Some(k) = self.pipe[0] {
                if let Some(v) = self.map.get(&k) {
                    return (true, *v);
                }
            }
        }
        (false, 0)
    }

    /// Apply one cycle's signals on the clock edge.
    fn tick(&mut self, plan: &SignalPlan) {
        let resolved: Option<u32> = if self.pipe.len() == 2 {
            self.pipe.pop_front().unwrap()
        } else {
            None
        };
        if plan.modify {
            if let Some(k) = resolved {
                if plan.del {
                    self.map.remove(&k);
                } else {
                    self.map.insert(k, plan.mod_value);
                }
            }
        }
        if plan.insert {
            self.map.insert(plan.insert_key, plan.insert_value);
        }
        self.pipe.push_back(if plan.lookup { Some(plan.lookup_key) } else { None });
    }
}

fn insert_plan(key: u32, value: u32) -> SignalPlan {
    let mut p = SignalPlan::idle();
    p.insert = true;
    p.insert_key = key;
    p.insert_value = value;
    p
}

fn plan_with_deferred(report: &ResolveReport) -> SignalPlan {
    let mut p = SignalPlan::idle();
    match report.deferred {
        Some(DeferredWrite::Replace(v)) => {
            p.modify = true;
            p.mod_value = v;
        }
        Some(DeferredWrite::Delete) => {
            p.modify = true;
            p.del = true;
        }
        None => {}
    }
    p
}

#[test]
fn default_configuration() {
    let h = Harness::new_default();
    assert_eq!(h.capacity, DEFAULT_CAPACITY);
    assert_eq!(h.budget, DEFAULT_BUDGET);
    assert!(!h.filled);
    assert_eq!(h.ops, 0);
    assert_eq!(h.model.len(), 0);
    assert_eq!(h.stats.num_lookups_checked, 0);
    assert_eq!(h.stats.num_inserts, 0);
}

#[test]
fn scripted_insert_lookup_delete_lookup() {
    let mut h = Harness::new(4, 100);
    let mut dut = StubDut::new();
    // make k1 and k2 resident, mirrored between model and device
    h.model.insert(1, 11);
    dut.tick(&insert_plan(1, 11));
    h.model.insert(2, 22);
    dut.tick(&insert_plan(2, 22));
    h.filled = true;

    // cycle: look k1 up
    let (v, val) = dut.sample();
    let r = h.resolve_due(v, val);
    assert!(r.pass && !r.due);
    let mut p = plan_with_deferred(&r);
    p.lookup = true;
    p.lookup_key = 1;
    h.issue_lookup_key(1);
    dut.tick(&p);

    // idle cycle
    let (v, val) = dut.sample();
    let r = h.resolve_due(v, val);
    assert!(r.pass && !r.due);
    let p = plan_with_deferred(&r);
    h.issue_idle();
    dut.tick(&p);

    // the lookup resolves: valid, with k1's value
    let (v, val) = dut.sample();
    assert!(v);
    assert_eq!(val, 11);
    let r = h.resolve_due(v, val);
    assert!(r.due && r.pass);
    assert!(r.deferred.is_none());
    // issue a lookup of k1 with a deferred delete; k1 sits at position 0
    let mut p = plan_with_deferred(&r);
    let key = h.issue_lookup_present(0, MutationChoice::Delete);
    assert_eq!(key, 1);
    p.lookup = true;
    p.lookup_key = key;
    dut.tick(&p);
    // the model no longer holds k1 from issue time on
    assert_eq!(h.model.get(1), None);

    // idle cycle
    let (v, val) = dut.sample();
    let r = h.resolve_due(v, val);
    assert!(r.pass);
    let p = plan_with_deferred(&r);
    h.issue_idle();
    dut.tick(&p);

    // the delete-lookup resolves: still valid with the value captured at
    // issue; its deferred delete is driven at the device this cycle
    let (v, val) = dut.sample();
    assert!(v);
    assert_eq!(val, 11);
    let r = h.resolve_due(v, val);
    assert!(r.due && r.pass);
    assert_eq!(r.deferred, Some(DeferredWrite::Delete));
    let p = plan_with_deferred(&r);
    h.issue_idle();
    dut.tick(&p);

    // look k1 up again: the record now expects absence
    let (v, val) = dut.sample();
    let r = h.resolve_due(v, val);
    assert!(r.pass);
    let mut p = plan_with_deferred(&r);
    p.lookup = true;
    p.lookup_key = 1;
    h.issue_lookup_key(1);
    dut.tick(&p);

    // idle cycle
    let (v, val) = dut.sample();
    let r = h.resolve_due(v, val);
    assert!(r.pass);
    let p = plan_with_deferred(&r);
    h.issue_idle();
    dut.tick(&p);

    // the final lookup resolves: not valid, and the oracle agrees
    let (v, val) = dut.sample();
    assert!(!v);
    let r = h.resolve_due(v, val);
    assert!(r.due && r.pass);
}

#[test]
fn random_key_disjoint_is_not_valid() {
    let mut h = Harness::new(4, 100);
    let mut dut = StubDut::new();
    h.model.insert(10, 1);
    dut.tick(&insert_plan(10, 1));
    h.model.insert(20, 2);
    dut.tick(&insert_plan(20, 2));
    h.model.insert(30, 3);
    dut.tick(&insert_plan(30, 3));
    h.filled = true;

    // look up a key disjoint from everything inserted
    let (v, val) = dut.sample();
    let r = h.resolve_due(v, val);
    assert!(r.pass);
    let mut p = plan_with_deferred(&r);
    p.lookup = true;
    p.lookup_key = 999;
    h.issue_lookup_key(999);
    dut.tick(&p);

    // idle cycle
    let (v, val) = dut.sample();
    let r = h.resolve_due(v, val);
    assert!(r.pass);
    let p = plan_with_deferred(&r);
    h.issue_idle();
    dut.tick(&p);

    // the miss resolves: not valid, and the oracle expected exactly that
    let (v, _val) = dut.sample();
    assert!(!v);
    let r = h.resolve_due(v, 0);
    assert!(r.due && r.pass);
}

#[test]
fn fill_issues_capacity_unique_inserts_then_steady() {
    let mut h = Harness::new(4, 10);
    let mut dut = StubDut::new();
    // a backpressured cycle issues nothing
    let p = h.fill_step(true);
    assert!(!p.insert);
    assert_eq!(h.model.len(), 0);
    assert!(!h.filled);
    // exactly `capacity` inserts, all with fresh keys, then the transition
    let mut seen: Vec<u32> = Vec::new();
    let mut inserts: usize = 0;
    while !h.filled {
        let p = h.fill_step(false);
        assert!(p.insert);
        assert!(!seen.contains(&p.insert_key));
        seen.push(p.insert_key);
        inserts += 1;
        dut.tick(&p);
    }
    assert_eq!(inserts, 4);
    assert_eq!(h.model.len(), 4);
    assert!(h.filled);
}

#[test]
fn randomized_run_against_stub() {
    let mut h = Harness::new(50, 600);
    let mut dut = StubDut::new();
    while !h.filled {
        let p = h.fill_step(false);
        dut.tick(&p);
    }
    let mut done = false;
    while !done {
        let (v, val) = dut.sample();
        let r = h.steady_step(v, val, false);
        // the device stand-in never disagrees with the reference model
        assert!(r.report.pass);
        dut.tick(&r.plan);
        done = r.done;
        assert!(h.model.len() <= 50);
        assert!(h.recents.len() <= 100);
    }
    assert_eq!(h.ops, 600);
    assert!(h.stats.num_lookups_checked <= 600);
    assert!(h.stats.num_lookups_matched <= h.stats.num_lookups_checked);
    assert!(h.stats.num_deletes <= h.stats.num_modifications);
}
