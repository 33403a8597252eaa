//! The reference model: an insertion-ordered mapping from 32-bit keys to
//! 32-bit values that mirrors the logical content of the device.  It is the
//! source of truth the oracle validates device outputs against, and it
//! supports picking a uniformly random resident entry, which the device
//! itself cannot offer.
//!
//! The storage is `indexmap::IndexMap`, kept behind trusted wrappers; its
//! contents are named by the uninterpreted `entries_of`, a sequence of
//! key-value pairs in storage order.

use vstd::prelude::*;

use crate::rng::random_index;

verus! {

#[verifier::external_type_specification]
#[verifier::external_body]
#[verifier::reject_recursive_types(K)]
#[verifier::reject_recursive_types(V)]
#[verifier::reject_recursive_types(S)]
pub struct ExIndexMap<K, V, S>(indexmap::IndexMap<K, V, S>);

/// The key-value pairs held by an `IndexMap`, in storage order.
pub uninterp spec fn entries_of(m: indexmap::IndexMap<u32, u32>) -> Seq<(u32, u32)>;

/// Some position of `es` holds key `k`.
pub open spec fn has_key(es: Seq<(u32, u32)>, k: u32) -> bool {
    exists|i: int| 0 <= i < es.len() && (#[trigger] es[i]).0 == k
}

/// A position of `es` holding key `k` (meaningful when `has_key(es, k)`).
pub open spec fn key_index(es: Seq<(u32, u32)>, k: u32) -> int {
    choose|i: int| 0 <= i < es.len() && (#[trigger] es[i]).0 == k
}

/// The value stored for key `k` (meaningful when `has_key(es, k)`).
pub open spec fn value_of(es: Seq<(u32, u32)>, k: u32) -> u32 {
    es[key_index(es, k)].1
}

/// No key occurs at two positions.
pub open spec fn keys_distinct(es: Seq<(u32, u32)>) -> bool {
    forall|i: int, j: int| 0 <= i < j < es.len() ==> (#[trigger] es[i]).0 != (#[trigger] es[j]).0
}

/// The entries after a swap-style removal of position `i`: the last entry
/// moves into place `i`, then the sequence shrinks by one.
pub open spec fn swap_removed(es: Seq<(u32, u32)>, i: int) -> Seq<(u32, u32)> {
    es.update(i, es.last()).drop_last()
}

/// Relies on indexmap::IndexMap::new: creates an empty map.
#[verifier::external_body]
fn imap_new() -> (m: indexmap::IndexMap<u32, u32>)
    ensures
        entries_of(m) == Seq::<(u32, u32)>::empty(),
{
    indexmap::IndexMap::new()
}

/// Relies on indexmap::IndexMap::len: the number of entries.
#[verifier::external_body]
fn imap_len(m: &indexmap::IndexMap<u32, u32>) -> (n: usize)
    ensures
        n == entries_of(*m).len(),
{
    m.len()
}

/// Relies on indexmap::IndexMap::contains_key: whether an entry with this key
/// exists.
#[verifier::external_body]
fn imap_contains_key(m: &indexmap::IndexMap<u32, u32>, k: u32) -> (r: bool)
    ensures
        r == has_key(entries_of(*m), k),
{
    m.contains_key(&k)
}

/// Relies on indexmap::IndexMap::get: the stored value for the key, if
/// present.
#[verifier::external_body]
fn imap_get(m: &indexmap::IndexMap<u32, u32>, k: u32) -> (r: Option<u32>)
    ensures
        r is Some <==> has_key(entries_of(*m), k),
        keys_distinct(entries_of(*m)) && has_key(entries_of(*m), k) ==> r == Some(
            value_of(entries_of(*m), k),
        ),
{
    m.get(&k).copied()
}

/// Relies on indexmap::IndexMap::get_index: the entry at a storage position,
/// if the position is in range.
#[verifier::external_body]
fn imap_get_index(m: &indexmap::IndexMap<u32, u32>, i: usize) -> (r: Option<(u32, u32)>)
    ensures
        i < entries_of(*m).len() ==> r == Some(entries_of(*m)[i as int]),
        i >= entries_of(*m).len() ==> r is None,
{
    m.get_index(i).map(|p: (&u32, &u32)| (*p.0, *p.1))
}

/// Relies on indexmap::IndexMap::insert: a new key is appended last in
/// order; an existing key keeps its place and only its value is updated, the
/// older value being returned.
#[verifier::external_body]
fn imap_insert(m: &mut indexmap::IndexMap<u32, u32>, k: u32, v: u32) -> (r: Option<u32>)
    ensures
        r is Some <==> has_key(entries_of(*old(m)), k),
        !has_key(entries_of(*old(m)), k) ==> entries_of(*final(m)) == entries_of(*old(m)).push(
            (k, v),
        ),
        keys_distinct(entries_of(*old(m))) && has_key(entries_of(*old(m)), k) ==> {
            let i = key_index(entries_of(*old(m)), k);
            &&& entries_of(*final(m)) == entries_of(*old(m)).update(i, (k, v))
            &&& r == Some(entries_of(*old(m))[i].1)
        },
{
    m.insert(k, v)
}

/// Relies on indexmap::IndexMap::swap_remove: the entry is removed by
/// swapping it with the last entry and popping; absent keys leave the map
/// unchanged.
#[verifier::external_body]
fn imap_swap_remove(m: &mut indexmap::IndexMap<u32, u32>, k: u32) -> (r: Option<u32>)
    ensures
        r is Some <==> has_key(entries_of(*old(m)), k),
        !has_key(entries_of(*old(m)), k) ==> entries_of(*final(m)) == entries_of(*old(m)),
        keys_distinct(entries_of(*old(m))) && has_key(entries_of(*old(m)), k) ==> {
            let i = key_index(entries_of(*old(m)), k);
            &&& entries_of(*final(m)) == swap_removed(entries_of(*old(m)), i)
            &&& r == Some(entries_of(*old(m))[i].1)
        },
{
    m.swap_remove(&k)
}

/// The authoritative in-memory mirror of the device's logical content.
pub struct RefModel {
    map: indexmap::IndexMap<u32, u32>,
}

impl View for RefModel {
    type V = Seq<(u32, u32)>;

    closed spec fn view(&self) -> Seq<(u32, u32)> {
        entries_of(self.map)
    }
}

impl RefModel {
    /// Keys are unique while resident.
    pub open spec fn wf(&self) -> bool {
        keys_distinct(self@)
    }

    pub fn new() -> (m: RefModel)
        ensures
            m@ == Seq::<(u32, u32)>::empty(),
            m.wf(),
    {
        let map = imap_new();
        RefModel { map }
    }

    pub fn len(&self) -> (n: usize)
        ensures
            n == self@.len(),
    {
        imap_len(&self.map)
    }

    pub fn contains_key(&self, k: u32) -> (r: bool)
        ensures
            r == has_key(self@, k),
    {
        imap_contains_key(&self.map, k)
    }

    pub fn get(&self, k: u32) -> (r: Option<u32>)
        requires
            self.wf(),
        ensures
            r is Some <==> has_key(self@, k),
            has_key(self@, k) ==> r == Some(value_of(self@, k)),
    {
        imap_get(&self.map, k)
    }

    /// The resident entry at a storage position.
    pub fn entry_at(&self, i: usize) -> (r: (u32, u32))
        requires
            i < self@.len(),
        ensures
            r == self@[i as int],
    {
        match imap_get_index(&self.map, i) {
            Some(p) => p,
            None => unreached(),
        }
    }

    /// A uniformly random resident entry.
    pub fn pick_random_resident(&self) -> (r: (u32, u32))
        requires
            self@.len() > 0,
        ensures
            exists|i: int| 0 <= i < self@.len() && #[trigger] self@[i] == r,
    {
        let n = imap_len(&self.map);
        let i = random_index(n);
        let r = self.entry_at(i);
        proof {
            assert(self@[i as int] == r);
        }
        r
    }

    /// Make a key resident.  The key must not already be present; it is
    /// appended last in order.
    pub fn insert(&mut self, k: u32, v: u32)
        requires
            old(self).wf(),
            !has_key(old(self)@, k),
        ensures
            final(self).wf(),
            final(self)@ == old(self)@.push((k, v)),
    {
        let ghost es = self@;
        let _ = imap_insert(&mut self.map, k, v);
        proof {
            lemma_push_fresh_distinct(es, k, v);
        }
    }

    /// Replace the value of a resident key in place; returns the old value.
    pub fn replace_value(&mut self, k: u32, v: u32) -> (r: u32)
        requires
            old(self).wf(),
            has_key(old(self)@, k),
        ensures
            final(self).wf(),
            final(self)@ == old(self)@.update(key_index(old(self)@, k), (k, v)),
            r == value_of(old(self)@, k),
    {
        let ghost es = self@;
        let r = imap_insert(&mut self.map, k, v);
        proof {
            lemma_replace_visible(es, k, v);
        }
        match r {
            Some(v0) => v0,
            None => unreached(),
        }
    }

    /// Remove a resident key by a swap-style removal; returns its value.
    pub fn remove(&mut self, k: u32) -> (r: u32)
        requires
            old(self).wf(),
            has_key(old(self)@, k),
        ensures
            final(self).wf(),
            final(self)@ == swap_removed(old(self)@, key_index(old(self)@, k)),
            final(self)@.len() == old(self)@.len() - 1,
            r == value_of(old(self)@, k),
    {
        let ghost es = self@;
        let r = imap_swap_remove(&mut self.map, k);
        proof {
            lemma_swap_removed(es, k);
        }
        match r {
            Some(v0) => v0,
            None => unreached(),
        }
    }
}

/// A position that holds key `es[i].0` is position `i` itself, when keys are
/// distinct.
pub proof fn lemma_key_index_of(es: Seq<(u32, u32)>, i: int)
    requires
        keys_distinct(es),
        0 <= i < es.len(),
    ensures
        has_key(es, es[i].0),
        key_index(es, es[i].0) == i,
        value_of(es, es[i].0) == es[i].1,
{
    assert(has_key(es, es[i].0));
    let j = key_index(es, es[i].0);
    assert(0 <= j < es.len() && es[j].0 == es[i].0);
    if i < j {
        assert(es[i].0 != es[j].0);
    } else if j < i {
        assert(es[j].0 != es[i].0);
    }
}

/// Appending a fresh key keeps keys distinct and leaves every other key's
/// presence and value unchanged.
pub proof fn lemma_push_fresh_distinct(es: Seq<(u32, u32)>, k: u32, v: u32)
    requires
        keys_distinct(es),
        !has_key(es, k),
    ensures
        keys_distinct(es.push((k, v))),
        has_key(es.push((k, v)), k),
        value_of(es.push((k, v)), k) == v,
        forall|k2: u32| k2 != k ==> #[trigger] has_key(es.push((k, v)), k2) == has_key(es, k2),
        forall|k2: u32|
            k2 != k && has_key(es, k2) ==> #[trigger] value_of(es.push((k, v)), k2) == value_of(
                es,
                k2,
            ),
{
    let es2 = es.push((k, v));
    assert forall|i: int, j: int| 0 <= i < j < es2.len() implies (#[trigger] es2[i]).0 != (
    #[trigger] es2[j]).0 by {
        if j < es.len() {
            assert(es2[i] == es[i] && es2[j] == es[j]);
        } else {
            assert(es2[j] == (k, v));
            assert(es2[i] == es[i]);
        }
    }
    assert(es2[es.len() as int] == (k, v));
    lemma_key_index_of(es2, es.len() as int);
    assert forall|k2: u32| k2 != k implies #[trigger] has_key(es2, k2) == has_key(es, k2) by {
        if has_key(es, k2) {
            let i = key_index(es, k2);
            assert(es2[i] == es[i]);
            assert(has_key(es2, k2));
        }
        if has_key(es2, k2) {
            let i = key_index(es2, k2);
            assert(i < es.len());
            assert(es[i] == es2[i]);
            assert(has_key(es, k2));
        }
    }
    assert forall|k2: u32| k2 != k && has_key(es, k2) implies #[trigger] value_of(es2, k2)
        == value_of(es, k2) by {
        let i = key_index(es, k2);
        assert(es2[i] == es[i]);
        lemma_key_index_of(es2, i);
    }
}

/// After the value of a resident key is replaced, a lookup of that key sees
/// the new value, never the old one; every other key's presence and value are
/// unchanged.
pub proof fn lemma_replace_visible(es: Seq<(u32, u32)>, k: u32, v: u32)
    requires
        keys_distinct(es),
        has_key(es, k),
    ensures
        ({
            let es2 = es.update(key_index(es, k), (k, v));
            &&& keys_distinct(es2)
            &&& es2.len() == es.len()
            &&& has_key(es2, k)
            &&& value_of(es2, k) == v
            &&& forall|k2: u32| k2 != k ==> #[trigger] has_key(es2, k2) == has_key(es, k2)
            &&& forall|k2: u32|
                k2 != k && has_key(es, k2) ==> #[trigger] value_of(es2, k2) == value_of(es, k2)
        }),
{
    let i = key_index(es, k);
    assert(0 <= i < es.len() && es[i].0 == k);
    let es2 = es.update(i, (k, v));
    assert(forall|j: int| 0 <= j < es.len() ==> (#[trigger] es2[j]).0 == es[j].0);
    assert forall|p: int, q: int| 0 <= p < q < es2.len() implies (#[trigger] es2[p]).0 != (
    #[trigger] es2[q]).0 by {
        assert(es2[p].0 == es[p].0 && es2[q].0 == es[q].0);
    }
    lemma_key_index_of(es2, i);
    assert forall|k2: u32| k2 != k implies #[trigger] has_key(es2, k2) == has_key(es, k2) by {
        if has_key(es, k2) {
            let j = key_index(es, k2);
            assert(j != i);
            assert(es2[j] == es[j]);
            assert(has_key(es2, k2));
        }
        if has_key(es2, k2) {
            let j = key_index(es2, k2);
            assert(j != i);
            assert(es[j] == es2[j]);
            assert(has_key(es, k2));
        }
    }
    assert forall|k2: u32| k2 != k && has_key(es, k2) implies #[trigger] value_of(es2, k2)
        == value_of(es, k2) by {
        let j = key_index(es, k2);
        assert(j != i);
        assert(es2[j] == es[j]);
        lemma_key_index_of(es2, j);
    }
}

/// After a resident key is swap-removed, a lookup of that key finds nothing;
/// every other key's presence and value are unchanged.
pub proof fn lemma_swap_removed(es: Seq<(u32, u32)>, k: u32)
    requires
        keys_distinct(es),
        has_key(es, k),
    ensures
        ({
            let es2 = swap_removed(es, key_index(es, k));
            &&& keys_distinct(es2)
            &&& es2.len() == es.len() - 1
            &&& !has_key(es2, k)
            &&& forall|k2: u32| k2 != k ==> #[trigger] has_key(es2, k2) == has_key(es, k2)
            &&& forall|k2: u32|
                k2 != k && has_key(es, k2) ==> #[trigger] value_of(es2, k2) == value_of(es, k2)
        }),
{
    let i = key_index(es, k);
    assert(0 <= i < es.len() && es[i].0 == k);
    let n = es.len() as int;
    let es2 = swap_removed(es, i);
    assert(es2.len() == n - 1);
    // Position j of es2 holds what stood at `origin(j)` in es.
    assert forall|j: int| 0 <= j < n - 1 implies #[trigger] es2[j] == es[origin(i, n, j)] by {
        if j == i {
            assert(es2[j] == es.update(i, es.last())[j]);
        }
    }
    assert forall|p: int, q: int| 0 <= p < q < es2.len() implies (#[trigger] es2[p]).0 != (
    #[trigger] es2[q]).0 by {
        let p0 = origin(i, n, p);
        let q0 = origin(i, n, q);
        assert(es2[p] == es[p0] && es2[q] == es[q0]);
        assert(p0 != q0);
    }
    assert forall|j: int| 0 <= j < n - 1 implies (#[trigger] es2[j]).0 != k by {
        let j0 = origin(i, n, j);
        assert(es2[j] == es[j0]);
        if j0 != i {
            assert(es[j0].0 != es[i].0);
        }
    }
    assert(!has_key(es2, k));
    assert forall|k2: u32| k2 != k implies #[trigger] has_key(es2, k2) == has_key(es, k2) by {
        if has_key(es, k2) {
            let j = key_index(es, k2);
            assert(j != i);
            if j == n - 1 {
                assert(i < n - 1);
                assert(es2[i] == es[n - 1]);
                assert(has_key(es2, k2));
            } else {
                assert(es2[j] == es[origin(i, n, j)]);
                assert(origin(i, n, j) == j);
                assert(has_key(es2, k2));
            }
        }
        if has_key(es2, k2) {
            let j = key_index(es2, k2);
            assert(es2[j] == es[origin(i, n, j)]);
            assert(has_key(es, k2));
        }
    }
    assert forall|k2: u32| k2 != k && has_key(es, k2) implies #[trigger] value_of(es2, k2)
        == value_of(es, k2) by {
        let j = key_index(es, k2);
        assert(j != i && es[j].0 == k2 && es[j].1 == value_of(es, k2));
        let j2: int = if j == n - 1 { i } else { j };
        assert(es2[j2] == es[j]);
        lemma_key_index_of(es2, j2);
    }
}

/// The position of `es` whose entry lands at position `j` after a swap-style
/// removal of position `i` (with `n` the length of `es`).
pub open spec fn origin(i: int, n: int, j: int) -> int {
    if j == i {
        n - 1
    } else {
        j
    }
}

/// Entries with distinct keys holding every key below `c` number at least
/// `c`: a key space larger than the resident count always has a fresh key.
pub proof fn lemma_count_distinct_keys(es: Seq<(u32, u32)>, c: nat)
    requires
        keys_distinct(es),
        forall|k: u32| k < c ==> #[trigger] has_key(es, k),
        c <= u32::MAX + 1,
    ensures
        es.len() >= c,
    decreases c,
{
    if c > 0 {
        let k_last = (c - 1) as u32;
        assert(has_key(es, k_last));
        lemma_swap_removed(es, k_last);
        let es2 = swap_removed(es, key_index(es, k_last));
        assert forall|k: u32| k < c - 1 implies #[trigger] has_key(es2, k) by {
            assert(has_key(es, k));
        }
        lemma_count_distinct_keys(es2, (c - 1) as nat);
    }
}

} // verus!
