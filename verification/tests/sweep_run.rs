use std::collections::HashMap;
use std::collections::VecDeque;

use hashmap_harness::oracle::SignalPlan;
use hashmap_harness::sweep::sweep_step;

/// A software stand-in for the device, as far as the sweep drives it:
/// inserts land on the clock edge, lookup results become observable two
/// cycles after issue.
struct StubDut {
    map: HashMap<u32, u32>,
    pipe: VecDeque<Option<u32>>,
}

impl StubDut {
    fn new() -> StubDut {
        StubDut { map: HashMap::new(), pipe: VecDeque::new() }
    }

    fn sample(&self) -> (bool, u32) {
        if self.pipe.len() == 2 {
            if let Some(k) = self.pipe[0] {
                if let Some(v) = self.map.get(&k) {
                    return (true, *v);
                }
            }
        }
        (false, 0)
    }

    fn tick(&mut self, plan: &SignalPlan) {
        if self.pipe.len() == 2 {
            self.pipe.pop_front();
        }
        if plan.insert {
            self.map.insert(plan.insert_key, plan.insert_value);
        }
        self.pipe.push_back(if plan.lookup { Some(plan.lookup_key) } else { None });
    }
}

#[test]
fn sweep_fill_and_readback() {
    let mut dut = StubDut::new();
    let mut step: usize = 0;
    let limit: usize = 50;
    let mut done = false;
    let mut checked: usize = 0;
    while !done {
        let (v, val) = dut.sample();
        let r = sweep_step(&mut step, limit, false);
        if let Some(expected) = r.expect {
            assert!(v);
            assert_eq!(val, expected);
            checked += 1;
        }
        dut.tick(&r.plan);
        done = r.done;
    }
    assert_eq!(step, 2 * limit + 2);
    assert_eq!(checked, limit);
}

#[test]
fn sweep_respects_backpressure() {
    let mut step: usize = 0;
    let r = sweep_step(&mut step, 50, true);
    assert!(!r.plan.insert && !r.plan.lookup);
    assert_eq!(step, 0);
    let r = sweep_step(&mut step, 50, false);
    assert!(r.plan.insert);
    assert_eq!(r.plan.insert_key, 0);
    assert_eq!(r.plan.insert_value, 0);
    assert_eq!(step, 1);
    let r = sweep_step(&mut step, 50, false);
    assert!(r.plan.insert);
    assert_eq!(r.plan.insert_key, 1);
    assert_eq!(r.plan.insert_value, 1);
    assert_eq!(step, 2);
}
