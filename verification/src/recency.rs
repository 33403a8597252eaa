//! The recency tracker: a bounded FIFO of recently accessed keys, used only
//! to bias generation toward revisiting recently touched keys.  It never
//! holds more than `RECENT_CAP` keys; pushing onto a full tracker first
//! evicts the oldest key.

use vstd::prelude::*;

use std::collections::VecDeque;

use crate::rng::random_index;

verus! {

pub const RECENT_CAP: usize = 100;

/// How a push transforms the tracked keys: appended, with the oldest key
/// evicted first when the tracker is full.
pub open spec fn pushed(before: Seq<u32>, after: Seq<u32>, k: u32) -> bool {
    if before.len() < RECENT_CAP {
        after == before.push(k)
    } else {
        after == before.subrange(1, before.len() as int).push(k)
    }
}

pub struct RecencyTracker {
    keys: VecDeque<u32>,
}

impl View for RecencyTracker {
    type V = Seq<u32>;

    closed spec fn view(&self) -> Seq<u32> {
        self.keys@
    }
}

impl RecencyTracker {
    /// The tracker never outgrows its capacity.
    pub open spec fn wf(&self) -> bool {
        self@.len() <= RECENT_CAP
    }

    pub fn new() -> (t: RecencyTracker)
        ensures
            t@ == Seq::<u32>::empty(),
            t.wf(),
    {
        RecencyTracker { keys: VecDeque::new() }
    }

    pub fn len(&self) -> (n: usize)
        ensures
            n == self@.len(),
    {
        self.keys.len()
    }

    pub fn is_empty(&self) -> (r: bool)
        ensures
            r == (self@.len() == 0),
    {
        self.keys.len() == 0
    }

    /// The tracked key at a position, oldest first.
    pub fn key_at(&self, i: usize) -> (k: u32)
        requires
            i < self@.len(),
        ensures
            k == self@[i as int],
    {
        self.keys[i]
    }

    /// Append a key, evicting the oldest key first if the tracker is full.
    pub fn push(&mut self, k: u32)
        requires
            old(self).wf(),
        ensures
            final(self).wf(),
            pushed(old(self)@, final(self)@, k),
            final(self)@.len() >= 1,
            final(self)@.last() == k,
    {
        if self.keys.len() >= RECENT_CAP {
            let _ = self.keys.pop_front();
        }
        self.keys.push_back(k);
    }

    /// A uniformly random tracked key.  Callers must check emptiness first.
    pub fn pick(&self) -> (k: u32)
        requires
            self@.len() > 0,
        ensures
            self@.contains(k),
    {
        let n = self.keys.len();
        let i = random_index(n);
        let k = self.keys[i];
        proof {
            assert(self@[i as int] == k);
        }
        k
    }
}

} // verus!
