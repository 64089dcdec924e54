use vstd::prelude::*;
use vstd::set_lib::{lemma_int_range, lemma_len_subset, lemma_map_size_bound, set_int_range};
use dashmap::DashMap;

verus! {

#[verifier::external_type_specification]
#[verifier::external_body]
#[verifier::reject_recursive_types(K)]
#[verifier::reject_recursive_types(V)]
#[verifier::reject_recursive_types(S)]
pub struct ExDashMap<K, V, S>(DashMap<K, V, S>);

/// The concurrent map that holds a table's weights.
pub type WeightMap = DashMap<u8, u32>;

/// What a `WeightMap` holds, key by key.
pub uninterp spec fn dash_contents(m: WeightMap) -> Map<u8, u32>;

/// Relies on `DashMap::with_capacity`: a fresh map holds nothing.
#[verifier::external_body]
fn dash_with_capacity(capacity: usize) -> (r: WeightMap)
    ensures
        dash_contents(r).dom().is_empty(),
{
    DashMap::with_capacity(capacity)
}

/// Relies on `DashMap::entry(..).or_insert(..)`: an occupied key keeps its value,
/// a vacant one receives the given value.
#[verifier::external_body]
fn dash_insert_if_absent(m: &mut WeightMap, key: u8, value: u32)
    ensures
        dash_contents(*final(m)) == (if dash_contents(*old(m)).contains_key(key) {
            dash_contents(*old(m))
        } else {
            dash_contents(*old(m)).insert(key, value)
        }),
{
    m.entry(key).or_insert(value);
}

/// Relies on `DashMap::get`: the value stored under the key, if any.
#[verifier::external_body]
fn dash_get(m: &WeightMap, key: u8) -> (r: Option<u32>)
    ensures
        r == (if dash_contents(*m).contains_key(key) {
            Some(dash_contents(*m)[key])
        } else {
            None::<u32>
        }),
{
    m.get(&key).map(|v| *v)
}

/// Relies on `DashMap::len`: the number of keys stored.
#[verifier::external_body]
fn dash_len(m: &WeightMap) -> (r: usize)
    ensures
        r == dash_contents(*m).len(),
{
    m.len()
}


/// The table that a sequence of `(key, weight)` draws leaves behind when each
/// key keeps the weight of the first draw that named it.
pub open spec fn first_wins(draws: Seq<(u8, u32)>) -> Map<u8, u32>
    decreases draws.len(),
{
    if draws.len() == 0 {
        Map::empty()
    } else {
        let prev = first_wins(draws.drop_last());
        let key = draws.last().0;
        if prev.contains_key(key) {
            prev
        } else {
            prev.insert(key, draws.last().1)
        }
    }
}

/// Any set of bytes is finite and has at most 256 members.
pub proof fn lemma_byte_set_bounded(s: Set<u8>)
    ensures
        s.finite(),
        s.len() <= 256,
{
    let range = set_int_range(0, 256);
    let to_byte = |i: int| i as u8;
    let all = Set::<u8>::full();
    lemma_int_range(0, 256);
    assert forall|b: u8| all.contains(b) implies range.map(to_byte).contains(b) by {
        assert(range.contains(b as int));
        assert(to_byte(b as int) == b);
    }
    assert(range.map(to_byte) =~= all);
    lemma_map_size_bound(range, all, to_byte);
    lemma_len_subset(s, all);
}

/// Every drawn key has a weight in the table, and only drawn keys do.
pub proof fn lemma_first_wins_keys(draws: Seq<(u8, u32)>)
    ensures
        forall|i: int| 0 <= i < draws.len() ==> first_wins(draws).contains_key(#[trigger] draws[i].0),
        forall|k: u8| first_wins(draws).contains_key(k)
            ==> exists|i: int| 0 <= i < draws.len() && draws[i].0 == k,
    decreases draws.len(),
{
    if draws.len() > 0 {
        let prev = draws.drop_last();
        lemma_first_wins_keys(prev);
        assert forall|i: int| 0 <= i < draws.len() implies first_wins(draws).contains_key(
            #[trigger] draws[i].0,
        ) by {
            if i < prev.len() {
                assert(prev[i] == draws[i]);
            }
        }
        assert forall|k: u8| first_wins(draws).contains_key(k) implies exists|i: int|
            0 <= i < draws.len() && draws[i].0 == k by {
            if first_wins(prev).contains_key(k) {
                let i = choose|i: int| 0 <= i < prev.len() && prev[i].0 == k;
                assert(draws[i] == prev[i]);
            } else {
                assert(draws[draws.len() - 1].0 == k);
            }
        }
    }
}

/// However many draws are made, at least one, the table ends with between 1
/// and 256 keys.
pub proof fn lemma_library_size(draws: Seq<(u8, u32)>)
    requires
        draws.len() >= 1,
    ensures
        1 <= first_wins(draws).len() <= 256,
{
    let keys = first_wins(draws).dom();
    lemma_first_wins_keys(draws);
    lemma_byte_set_bounded(keys);
    assert(keys.contains(draws[0].0));
    if keys.len() == 0 {
        keys.lemma_len0_is_empty();
    }
}

/// When a key is drawn more than once, the table keeps the weight of its first
/// draw; later weights for it are dropped.
pub proof fn lemma_first_write_wins(draws: Seq<(u8, u32)>, i: int)
    requires
        0 <= i < draws.len(),
        forall|j: int| 0 <= j < i ==> draws[j].0 != draws[i].0,
    ensures
        first_wins(draws).contains_key(draws[i].0),
        first_wins(draws)[draws[i].0] == draws[i].1,
    decreases draws.len(),
{
    let prev = draws.drop_last();
    if i < draws.len() - 1 {
        assert forall|j: int| 0 <= j < i implies prev[j].0 != prev[i].0 by {
            assert(prev[j] == draws[j]);
        }
        lemma_first_write_wins(prev, i);
        assert(prev[i] == draws[i]);
    } else {
        lemma_first_wins_keys(prev);
        if first_wins(prev).contains_key(draws[i].0) {
            let j = choose|j: int| 0 <= j < prev.len() && prev[j].0 == draws[i].0;
            assert(prev[j] == draws[j]);
        }
    }
}

/// A table under construction. Keys are bytes; a weight is held as the bit
/// pattern of a 32-bit float.
pub struct LibraryBuilder {
    map: WeightMap,
}

/// A finished, read-only table: it only answers lookups, so it can be shared
/// between workers without further synchronisation.
pub struct Library {
    map: WeightMap,
}

impl View for LibraryBuilder {
    type V = Map<u8, u32>;

    closed spec fn view(&self) -> Map<u8, u32> {
        dash_contents(self.map)
    }
}

impl View for Library {
    type V = Map<u8, u32>;

    closed spec fn view(&self) -> Map<u8, u32> {
        dash_contents(self.map)
    }
}

impl LibraryBuilder {
    /// An empty table with room reserved for `capacity` keys.
    pub fn new(capacity: usize) -> (r: LibraryBuilder)
        ensures
            r@ == Map::<u8, u32>::empty(),
    {
        let map = dash_with_capacity(capacity);
        proof {
            assert(dash_contents(map) =~= Map::<u8, u32>::empty());
        }
        LibraryBuilder { map }
    }

    /// Stores `weight` under `key` unless the key already has a weight: the
    /// first write wins. Returns whether the weight was stored.
    pub fn offer(&mut self, key: u8, weight: u32) -> (stored: bool)
        ensures
            stored == !old(self)@.contains_key(key),
            final(self)@ == (if old(self)@.contains_key(key) {
                old(self)@
            } else {
                old(self)@.insert(key, weight)
            }),
    {
        let stored = dash_get(&self.map, key).is_none();
        dash_insert_if_absent(&mut self.map, key, weight);
        stored
    }

    /// Ends construction: the table can no longer change.
    pub fn finish(self) -> (r: Library)
        ensures
            r@ == self@,
    {
        Library { map: self.map }
    }
}

impl Library {
    /// The table built from `draws` in order, first write winning.
    pub fn from_draws(draws: &Vec<(u8, u32)>) -> (r: Library)
        ensures
            r@ == first_wins(draws@),
    {
        let mut builder = LibraryBuilder::new(draws.len());
        let mut i: usize = 0;
        while i < draws.len()
            invariant
                i <= draws.len(),
                builder@ == first_wins(draws@.take(i as int)),
            decreases draws.len() - i,
        {
            proof {
                assert(draws@.take(i as int + 1).drop_last() =~= draws@.take(i as int));
            }
            let (key, weight) = draws[i];
            builder.offer(key, weight);
            i = i + 1;
        }
        proof {
            assert(draws@.take(i as int) =~= draws@);
        }
        builder.finish()
    }

    /// The weight stored under `key`, if any.
    pub fn get(&self, key: u8) -> (r: Option<u32>)
        ensures
            r == (if self@.contains_key(key) {
                Some(self@[key])
            } else {
                None::<u32>
            }),
    {
        dash_get(&self.map, key)
    }

    /// Whether `key` has a weight.
    pub fn contains_key(&self, key: u8) -> (r: bool)
        ensures
            r == self@.contains_key(key),
    {
        dash_get(&self.map, key).is_some()
    }

    /// The number of keys that have a weight.
    pub fn len(&self) -> (r: usize)
        ensures
            r == self@.len(),
    {
        proof {
            lemma_byte_set_bounded(self@.dom());
        }
        dash_len(&self.map)
    }
}

} // verus!
