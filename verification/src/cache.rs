//! A small key/value cache of a fixed number of slots, each stamped with the
//! time (in milliseconds) it was last read or written.
//!
//! A lookup finds the first slot holding the key, refreshes its stamp and
//! hands out a copy of its value. A store always overwrites the first slot:
//! the search for the oldest slot compares each stamp with a start value of
//! zero, and as stamps are unsigned none is ever smaller, so the first slot
//! is the one taken. When the clock reads a time before 1970, a lookup
//! leaves the stamp as it was and a store stamps zero (`get_at` and
//! `set_at` take the clock reading).
use vstd::prelude::*;
use vstd::laws_eq::obeys_concrete_eq;

verus! {

/// A key and its value.
#[derive(Debug)]
pub struct Keyed<K, A> {
    pub key: K,
    pub value: A,
}

/// A keyed value with the time it was last used.
#[derive(Debug)]
pub struct TimeStamped<K, A> {
    pub timestamp: u128,
    pub value: Keyed<K, A>,
}

/// Whether `x` is a value that `T::default()` gives.
pub open spec fn is_default<T: Default>(x: T) -> bool {
    call_ensures(T::default, (), x)
}

/// Milliseconds since 1970-01-01 00:00:00 UTC by the machine's clock,
/// whole ones as `Duration::as_millis` counts them; `None` when the clock
/// reads a time before 1970.
fn millis_now() -> Option<u128> {
    match crate::time::since_epoch() {
        Some((secs, nanos)) => Some(secs as u128 * 1000 + (nanos / 1_000_000) as u128),
        None => None,
    }
}

impl<K: Default, A: Default> TimeStamped<K, A> {
    /// An unused slot: stamp zero, default key and value.
    pub fn empty() -> (r: TimeStamped<K, A>)
        ensures
            r.timestamp == 0,
            is_default(r.value.key),
            is_default(r.value.value),
    {
        TimeStamped { timestamp: 0, value: Keyed { key: K::default(), value: A::default() } }
    }
}

/// The stamp a slot gets from the clock reading `now`: the reading, or
/// `kept` when the clock gave none.
pub open spec fn stamp_of(now: Option<u128>, kept: u128) -> u128 {
    match now {
        Some(t) => t,
        None => kept,
    }
}

/// The first slot of `slots` that holds `key`.
pub open spec fn slot_of<K, A>(slots: Seq<TimeStamped<K, A>>, key: K) -> Option<int> {
    crate::pattern::first_from(holds_key(slots, key), 0, slots.len() - 1)
}

/// The slots of `slots` that hold `key`.
pub open spec fn holds_key<K, A>(slots: Seq<TimeStamped<K, A>>, key: K) -> spec_fn(int) -> bool {
    |i: int| slots[i].value.key == key
}

/// `after` is `before` with slot `i` stamped anew and otherwise unchanged.
pub open spec fn restamped<K, A>(
    before: Seq<TimeStamped<K, A>>,
    after: Seq<TimeStamped<K, A>>,
    i: int,
) -> bool {
    &&& after.len() == before.len()
    &&& after[i].value == before[i].value
    &&& forall|j: int| 0 <= j < before.len() && j != i ==> after[j] == before[j]
}

/// What a lookup of `key` does: `r` is what it returns, `after` the slots
/// it leaves.
pub open spec fn lookup<K, A: Clone>(
    before: Seq<TimeStamped<K, A>>,
    key: K,
    r: Option<A>,
    after: Seq<TimeStamped<K, A>>,
) -> bool {
    match slot_of(before, key) {
        None => r is None && after == before,
        Some(i) => r matches Some(v) && cloned(before[i].value.value, v) && restamped(
            before,
            after,
            i,
        ),
    }
}

/// What storing `value` under `key` does to the slots.
pub open spec fn store<K, A>(
    before: Seq<TimeStamped<K, A>>,
    key: K,
    value: A,
    after: Seq<TimeStamped<K, A>>,
) -> bool {
    &&& after.len() == before.len()
    &&& after[0].value == (Keyed { key, value })
    &&& forall|j: int| 0 < j < before.len() ==> #[trigger] after[j] == before[j]
}

/// Reading a key right after storing a value under it gives back (a copy
/// of) that value.
pub proof fn law_read_after_write<K, A: Clone>(
    s0: Seq<TimeStamped<K, A>>,
    key: K,
    value: A,
    s1: Seq<TimeStamped<K, A>>,
    r: Option<A>,
    s2: Seq<TimeStamped<K, A>>,
)
    requires
        s0.len() > 0,
        store(s0, key, value, s1),
        lookup(s1, key, r, s2),
    ensures
        r matches Some(v) && cloned(value, v),
{
    assert(holds_key(s1, key)(0));
    assert(slot_of(s1, key) == Some(0int));
}

/// Whether no two slots hold the same key.
pub open spec fn distinct_keys<K, A>(slots: Seq<TimeStamped<K, A>>) -> bool {
    forall|i: int, j: int|
        0 <= i < j < slots.len() ==> (#[trigger] slots[i]).value.key != (#[trigger] slots[j]).value.key
}

/// Storing a key keeps the keys of the slots distinct, and the first slot
/// is then the one that holds it, provided no slot but the first held the
/// key before. (A store always writes the first slot, so a key held by
/// another slot would then be held twice.)
pub proof fn law_store_keeps_keys_distinct<K, A>(
    s0: Seq<TimeStamped<K, A>>,
    key: K,
    value: A,
    s1: Seq<TimeStamped<K, A>>,
)
    requires
        s0.len() > 0,
        distinct_keys(s0),
        forall|j: int| 0 < j < s0.len() ==> (#[trigger] s0[j]).value.key != key,
        store(s0, key, value, s1),
    ensures
        distinct_keys(s1),
        slot_of(s1, key) == Some(0int),
{
    assert forall|i: int, j: int| 0 <= i < j < s1.len() implies (#[trigger] s1[i]).value.key
        != (#[trigger] s1[j]).value.key by {
        assert(s1[j] == s0[j]);
        if i > 0 {
            assert(s1[i] == s0[i]);
        }
    }
    assert(holds_key(s1, key)(0));
}

/// Storing and reading keep the number of slots.
pub proof fn law_slot_count<K, A: Clone>(
    s0: Seq<TimeStamped<K, A>>,
    key: K,
    value: A,
    s1: Seq<TimeStamped<K, A>>,
    r: Option<A>,
    s2: Seq<TimeStamped<K, A>>,
)
    requires
        store(s0, key, value, s1),
        lookup(s0, key, r, s2),
    ensures
        s1.len() == s0.len(),
        s2.len() == s0.len(),
{
}

/// A lookup changes no key and no value, only the stamp of the slot it
/// finds.
pub proof fn law_lookup_keeps_contents<K, A: Clone>(
    s0: Seq<TimeStamped<K, A>>,
    key: K,
    r: Option<A>,
    s1: Seq<TimeStamped<K, A>>,
)
    requires
        lookup(s0, key, r, s1),
    ensures
        s1.len() == s0.len(),
        forall|j: int| 0 <= j < s0.len() ==> (#[trigger] s1[j]).value == s0[j].value,
{
}

/// The cache, with `N` slots.
pub struct Cache<K, A, const N: usize> {
    cache: Vec<TimeStamped<K, A>>,
}

impl<K: PartialEq + Default, A: Clone + Default, const N: usize> Cache<K, A, N> {
    /// The slots, in order.
    pub closed spec fn slots(&self) -> Seq<TimeStamped<K, A>> {
        self.cache@
    }

    /// There are always `N` slots.
    pub open spec fn wf(&self) -> bool {
        self.slots().len() == N
    }

    /// A cache of `N` unused slots.
    pub fn new() -> (r: Cache<K, A, N>)
        ensures
            r.wf(),
            forall|i: int|
                0 <= i < N ==> (#[trigger] r.slots()[i]).timestamp == 0 && is_default(
                    r.slots()[i].value.key,
                ) && is_default(r.slots()[i].value.value),
    {
        let mut cache: Vec<TimeStamped<K, A>> = Vec::new();
        let mut i: usize = 0;
        while i < N
            invariant
                i <= N,
                cache@.len() == i,
                forall|j: int|
                    0 <= j < i ==> (#[trigger] cache@[j]).timestamp == 0 && is_default(
                        cache@[j].value.key,
                    ) && is_default(cache@[j].value.value),
            decreases N - i,
        {
            let e = TimeStamped::empty();
            cache.push(e);
            assert(cache@[i as int] == e);
            i = i + 1;
        }
        let r = Cache { cache };
        assert(r.slots() == cache@);
        r
    }

    /// The value stored under `key`, if any slot holds it; that slot is
    /// stamped with the clock reading `now` (left as it was when there is
    /// none).
    pub fn get_at(&mut self, key: K, now: Option<u128>) -> (r: Option<A>)
        requires
            obeys_concrete_eq::<K>(),
        ensures
            lookup(old(self).slots(), key, r, final(self).slots()),
            slot_of(old(self).slots(), key) matches Some(i) ==> final(self).slots()[i].timestamp
                == stamp_of(now, old(self).slots()[i].timestamp),
    {
        proof {
            reveal(obeys_concrete_eq);
        }
        let ghost slots = self.cache@;
        let mut i: usize = 0;
        while i < self.cache.len()
            invariant
                i <= self.cache@.len(),
                self.cache@ == slots,
                old(self).cache@ == slots,
                obeys_concrete_eq::<K>(),
                crate::pattern::first_from(holds_key(slots, key), 0, slots.len() - 1)
                    == crate::pattern::first_from(holds_key(slots, key), i as int, slots.len() - 1),
            decreases self.cache.len() - i,
        {
            proof {
                reveal(obeys_concrete_eq);
            }
            if self.cache[i].value.key == key {
                assert(holds_key(slots, key)(i as int));
                let v = self.cache[i].value.value.clone();
                assert(vstd::pervasive::strictly_cloned(slots[i as int].value.value, v));
                match now {
                    Some(t) => {
                        self.cache[i].timestamp = t;
                    },
                    None => {},
                }
                assert(restamped(slots, self.cache@, i as int));
                assert(crate::pattern::first_from(holds_key(slots, key), i as int, slots.len() - 1) == Some(i as int));
                assert(slot_of(old(self).slots(), key) == Some(i as int));
                assert(cloned(old(self).slots()[i as int].value.value, v));
                assert(restamped(old(self).slots(), self.slots(), i as int));
                return Some(v);
            }
            i = i + 1;
        }
        None
    }

    /// The value stored under `key`, if any slot holds it; that slot is
    /// stamped with the current time (see `get_at`).
    pub fn get(&mut self, key: K) -> (r: Option<A>)
        requires
            obeys_concrete_eq::<K>(),
        ensures
            lookup(old(self).slots(), key, r, final(self).slots()),
    {
        let now = millis_now();
        self.get_at(key, now)
    }

    /// Stores `value` under `key` in the first slot, stamped with the clock
    /// reading `now` (zero when there is none).
    pub fn set_at(&mut self, key: K, value: A, now: Option<u128>)
        requires
            old(self).wf(),
            N > 0,
        ensures
            final(self).wf(),
            store(old(self).slots(), key, value, final(self).slots()),
            final(self).slots()[0].timestamp == stamp_of(now, 0),
    {
        // Look for the slot with the smallest stamp below the start value.
        let mut oldest: Option<usize> = None;
        let mut oldest_stamp: u128 = 0;
        let mut i: usize = 0;
        while i < self.cache.len()
            invariant
                i <= self.cache@.len(),
                oldest_stamp == 0,
                oldest is None,
            decreases self.cache.len() - i,
        {
            if self.cache[i].timestamp < oldest_stamp {
                oldest = Some(i);
                oldest_stamp = self.cache[i].timestamp;
            }
            i = i + 1;
        }
        let slot: usize = match oldest {
            Some(j) => if oldest_stamp == 0 {
                0
            } else {
                j
            },
            None => 0,
        };
        let stamp: u128 = match now {
            Some(t) => t,
            None => 0,
        };
        self.cache.set(slot, TimeStamped { timestamp: stamp, value: Keyed { key, value } });
    }

    /// Stores `value` under `key` in the first slot, stamped with the
    /// current time (see `set_at`).
    pub fn set(&mut self, key: K, value: A)
        requires
            old(self).wf(),
            N > 0,
        ensures
            final(self).wf(),
            store(old(self).slots(), key, value, final(self).slots()),
    {
        let now = millis_now();
        self.set_at(key, value, now);
    }
}

} // verus!
