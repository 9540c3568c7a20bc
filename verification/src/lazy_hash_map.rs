//! A hash map that allocates its underlying table lazily.
//!
//! A [`LazyHashMap`] starts out without a table and behaves like an empty
//! map; the table is materialized by the first `insert` and is never given
//! up afterwards.  The underlying table is a `std::collections::HashMap`
//! whose hasher is `seahash::SeaHasher`.
//!
//! The view of a `LazyHashMap<K, V>` is a `Map<K, V>`: empty while no table
//! exists, and the table's own view once one does.  As with `HashMap`
//! itself, the contracts over the view are conditioned on
//! `obeys_key_model::<K>()`: they say nothing about a key type whose `Hash`
//! or `Eq` implementation disagrees with structural equality.

use std::borrow::Borrow;
use std::collections::hash_map;
use std::collections::HashMap;
use std::hash::BuildHasherDefault;
use std::hash::Hash;
use vstd::prelude::*;
use vstd::std_specs::hash::contains_borrowed_key;
use vstd::std_specs::hash::group_hash_axioms;
use vstd::std_specs::hash::maps_borrowed_key_to_value;
use vstd::std_specs::hash::obeys_key_model;
use vstd::std_specs::iter::IteratorSpec;

verus! {

/// Declares `seahash::SeaHasher` so that it can appear in types here.
/// The hasher is only ever driven internally by the underlying table.
#[verifier::external_type_specification]
#[verifier::external_body]
pub struct ExSeaHasher(seahash::SeaHasher);

/// Declares `std::hash::BuildHasherDefault`, the builder that hands the
/// underlying table a fresh `SeaHasher::default()` whenever it hashes.
#[verifier::external_type_specification]
#[verifier::external_body]
#[verifier::reject_recursive_types(H)]
pub struct ExBuildHasherDefault<H>(BuildHasherDefault<H>);

/// The underlying table: a standard hash map driven by `SeaHasher`.
type Table<K, V> = HashMap<K, V, BuildHasherDefault<seahash::SeaHasher>>;

/// A map from `K` to `V` whose underlying hash table is only allocated by
/// the first insertion.  Until then it behaves exactly like an empty map.
pub struct LazyHashMap<K, V> {
    map: Option<Table<K, V>>,
}

impl<K, V> View for LazyHashMap<K, V> {
    type V = Map<K, V>;

    closed spec fn view(&self) -> Map<K, V> {
        match self.map {
            None => Map::empty(),
            Some(m) => m@,
        }
    }
}

impl<K, V> LazyHashMap<K, V> where K: Hash + Eq {
    /// Whether the underlying table has been allocated.
    pub closed spec fn is_materialized(&self) -> bool {
        self.map is Some
    }

    /// Whether a lookup with the borrowed key `key` finds an entry.
    ///
    /// This is the map-level counterpart of vstd's `contains_borrowed_key`,
    /// which leaves open how a `Q` relates to the stored key type; for
    /// `Q == K`, `lemma_contains_agrees_with_view` ties it to the view.
    pub closed spec fn spec_contains<Q: ?Sized>(&self, key: &Q) -> bool {
        match self.map {
            None => false,
            Some(m) => contains_borrowed_key(m@, key),
        }
    }

    /// Whether a lookup with the borrowed key `key` finds the value `v`.
    pub closed spec fn spec_maps_to<Q: ?Sized>(&self, key: &Q, v: V) -> bool {
        match self.map {
            None => false,
            Some(m) => maps_borrowed_key_to_value(m@, key, v),
        }
    }

    /// For a lookup keyed by `K` itself, `spec_contains` agrees with the
    /// view: a key is found if and only if the view holds it.
    pub proof fn lemma_contains_agrees_with_view(&self, key: &K)
        ensures
            self.spec_contains(key) <==> self@.contains_key(*key),
    {
        broadcast use group_hash_axioms;

    }

    /// For a lookup keyed by `K` itself, `spec_maps_to` agrees with the
    /// view: `key` is found at `v` if and only if the view maps it to `v`.
    pub proof fn lemma_maps_to_agrees_with_view(&self, key: &K, v: V)
        ensures
            self.spec_maps_to(key, v) <==> (self@.contains_key(*key) && self@[*key] == v),
    {
        broadcast use group_hash_axioms;

    }

    /// A map that never materialized a table is empty: its view holds
    /// nothing, no lookup finds a key, and no lookup finds a value — for
    /// every borrowed key form, not just `K` itself.
    pub proof fn lemma_unmaterialized_reads_empty<Q: ?Sized>(&self, key: &Q)
        requires
            !self.is_materialized(),
        ensures
            self@ == Map::<K, V>::empty(),
            !self.spec_contains(key),
            forall|v: V| !(#[trigger] self.spec_maps_to(key, v)),
    {
    }

    /// Creates a map with no underlying table.  No allocation happens here.
    pub fn new() -> (m: LazyHashMap<K, V>)
        ensures
            m@ == Map::<K, V>::empty(),
            !m.is_materialized(),
    {
        LazyHashMap { map: None }
    }

    /// Membership test.  Without a table nothing is present; a table is
    /// never allocated by this call.
    pub fn contains_key<Q: ?Sized>(&self, key: &Q) -> (r: bool) where
        K: Borrow<Q>,
        Q: Hash + Eq,

        ensures
            obeys_key_model::<K>() ==> r == self.spec_contains(key),
            !self.is_materialized() ==> r == false,
    {
        match &self.map {
            None => false,
            Some(m) => table_contains_key(m, key),
        }
    }

    /// Lookup.  Without a table nothing is found; a table is never
    /// allocated by this call.
    pub fn get<'a, Q: ?Sized>(&'a self, key: &Q) -> (r: Option<&'a V>) where
        K: Borrow<Q>,
        Q: Hash + Eq,

        ensures
            obeys_key_model::<K>() ==> match r {
                Some(v) => self.spec_contains(key) && self.spec_maps_to(key, *v),
                None => !self.spec_contains(key),
            },
            !self.is_materialized() ==> r is None,
    {
        match &self.map {
            None => None,
            Some(m) => table_get(m, key),
        }
    }

    /// Inserts `key -> val`, materializing the underlying table first if
    /// none exists yet: this is the single allocation point of the type.
    /// Returns the value previously stored under `key`, if any.
    pub fn insert(&mut self, key: K, val: V) -> (prev: Option<V>)
        ensures
            final(self).is_materialized(),
            final(self)@.dom().finite(),
            obeys_key_model::<K>() ==> {
                &&& final(self)@ == old(self)@.insert(key, val)
                &&& match prev {
                    Some(v) => old(self)@.contains_key(key) && v == old(self)@[key],
                    None => !old(self)@.contains_key(key),
                }
            },
    {
        match &mut self.map {
            None => {
                let mut m: Table<K, V> = HashMap::default();
                let prev = table_insert(&mut m, key, val);
                self.map = Some(m);
                prev
            },
            Some(m) => table_insert(m, key, val),
        }
    }

    /// Hands out a fresh cursor over the current entries.  Without a table
    /// the cursor produces nothing, and no table is allocated; otherwise
    /// the cursor walks the underlying table's entries: as many pairs as
    /// the map has keys, without duplicates, each pair an entry of the map
    /// and each key of the map appearing.
    pub fn iter<'a>(&'a self) -> (it: Iter<'a, K, V>)
        ensures
            !self.is_materialized() ==> it.cursor() is None,
            self.is_materialized() ==> it.cursor() is Some,
            self.is_materialized() && obeys_key_model::<K>() ==> {
                let pairs = (it.cursor()->0).remaining();
                &&& pairs.len() == self@.dom().len()
                &&& pairs.no_duplicates()
                &&& forall|i: int|
                    #![trigger pairs[i]]
                    0 <= i < pairs.len() ==> self@.contains_key(*pairs[i].0) && self@[*pairs[i].0]
                        == *pairs[i].1
                &&& forall|k: K| #[trigger] self@.contains_key(k) ==> pairs.contains((&k, &self@[k]))
                &&& pairs.unref().to_set() == self@.kv_pairs()
            },
    {
        match &self.map {
            None => Iter { inner: None },
            Some(m) => Iter { inner: Some(table_iter(m)) },
        }
    }
}

/// A cursor over the entries of a [`LazyHashMap`], as handed out by
/// [`LazyHashMap::iter`].  It is single-pass; a fresh one can be requested
/// from the map at any time.
pub struct Iter<'a, K, V> {
    inner: Option<hash_map::Iter<'a, K, V>>,
}

impl<'a, K, V> Iter<'a, K, V> {
    /// The cursor over the underlying table, if the map had one.
    pub closed spec fn cursor(&self) -> Option<hash_map::Iter<'a, K, V>> {
        self.inner
    }

    /// Produces the next key/value pair, or `None` once the entries are
    /// exhausted — immediately so for a map that never had a table.
    pub fn next(&mut self) -> (r: Option<(&'a K, &'a V)>)
        ensures
            match old(self).cursor() {
                None => r is None && final(self).cursor() is None,
                Some(c) => final(self).cursor() matches Some(c2) && {
                    if c.remaining().len() > 0 {
                        &&& r == Some(c.remaining()[0])
                        &&& c2.remaining() == c.remaining().drop_first()
                    } else {
                        &&& r is None
                        &&& c2.remaining() == c.remaining()
                    }
                },
            },
    {
        match &mut self.inner {
            None => None,
            Some(c) => advance(c),
        }
    }

    /// How many pairs are still to come.  The bounds are exact: `(0, Some(0))`
    /// without a table, and the number of remaining entries otherwise.
    pub fn size_hint(&self) -> (r: (usize, Option<usize>))
        ensures
            match self.cursor() {
                None => r == (0usize, Some(0usize)),
                Some(c) => r.0 == c.remaining().len() && r.1 == Some(r.0),
            },
    {
        match &self.inner {
            None => (0, Some(0)),
            Some(c) => table_iter_size_hint(c),
        }
    }
}

// ------------------------------------------------------------------------
// Laws relating the operations across calls.  Each speaks over the views
// that the operations' own contracts use, so a caller can chain them: the
// `requires` of each is exactly what `insert` ensures about its states.
// ------------------------------------------------------------------------

/// Inserting a key that was absent makes it retrievable: afterwards the
/// key is present, a lookup finds exactly the inserted value, and no other
/// key's presence or value changed.  (`insert` itself ensures that the
/// previous value reported for such an insert is `None`.)
pub proof fn lemma_insert_fresh_key<K: Hash + Eq, V>(
    pre: &LazyHashMap<K, V>,
    post: &LazyHashMap<K, V>,
    key: &K,
    val: V,
)
    requires
        !pre@.contains_key(*key),
        post@ == pre@.insert(*key, val),
    ensures
        post.spec_contains(key),
        post.spec_maps_to(key, val),
        post@.contains_key(*key),
        post@[*key] == val,
        forall|k2: K| k2 != *key ==> (post@.contains_key(k2) <==> pre@.contains_key(k2)),
        forall|k2: K| k2 != *key && pre@.contains_key(k2) ==> post@[k2] == pre@[k2],
{
    post.lemma_contains_agrees_with_view(key);
    post.lemma_maps_to_agrees_with_view(key, val);
}

/// Overwriting is last-write-wins: after inserting `key -> v1` and then
/// `key -> v2`, the state the second insert starts from holds `v1` under
/// `key` — so the second insert reports `Some(v1)` as the previous value —
/// and afterwards a lookup finds `v2`, the map being exactly as if only
/// `key -> v2` had been inserted.
pub proof fn lemma_last_write_wins<K: Hash + Eq, V>(
    pre: &LazyHashMap<K, V>,
    mid: &LazyHashMap<K, V>,
    post: &LazyHashMap<K, V>,
    key: &K,
    v1: V,
    v2: V,
)
    requires
        mid@ == pre@.insert(*key, v1),
        post@ == mid@.insert(*key, v2),
    ensures
        mid@.contains_key(*key),
        mid@[*key] == v1,
        post.spec_contains(key),
        post.spec_maps_to(key, v2),
        post@ == pre@.insert(*key, v2),
{
    post.lemma_contains_agrees_with_view(key);
    post.lemma_maps_to_agrees_with_view(key, v2);
    assert(post@ =~= pre@.insert(*key, v2));
}

/// Cardinality: an insert of an absent key grows the map by exactly one
/// entry, and an insert of a present key leaves the count unchanged.
/// Together with `iter`'s contract — the cursor yields `self@.dom().len()`
/// pairs, without duplicates, exactly the entries of the map — this pins
/// how many pairs an iteration produces after a run of inserts.
pub proof fn lemma_insert_cardinality<K: Hash + Eq, V>(
    pre: &LazyHashMap<K, V>,
    post: &LazyHashMap<K, V>,
    key: &K,
    val: V,
)
    requires
        pre@.dom().finite(),
        post@ == pre@.insert(*key, val),
    ensures
        !pre@.contains_key(*key) ==> post@.len() == pre@.len() + 1,
        pre@.contains_key(*key) ==> post@.len() == pre@.len(),
{
    broadcast use vstd::set::axiom_set_insert_len;

    assert(post@.dom() =~= pre@.dom().insert(*key));
}

// ------------------------------------------------------------------------
// Trusted wrappers around the underlying table.
//
// vstd specifies `HashMap` for any hasher `S`, but only conditioned on
// `builds_valid_hashers::<S>()`, and it provides that fact only for the
// standard `RandomState`.  The table here hashes with `SeaHasher` instead,
// so each wrapper below restates vstd's contract for the method it calls,
// conditioned on the key model alone.  That rests on `seahash`'s source:
// `SeaHasher::default()` seeds with four fixed constants and its `finish`
// is a pure function of those seeds and the bytes written, so any two
// hashers the table builds agree on every write sequence — exactly what
// `builds_valid_hashers` asks of a hasher.
// ------------------------------------------------------------------------

/// Relies on `HashMap::contains_key` and the deterministic `SeaHasher`
/// (see above): membership agrees with the map view.
#[verifier::external_body]
fn table_contains_key<K, V, Q: ?Sized>(m: &Table<K, V>, key: &Q) -> (r: bool) where
    K: Borrow<Q> + Hash + Eq,
    Q: Hash + Eq,

    ensures
        obeys_key_model::<K>() ==> r == contains_borrowed_key(m@, key),
{
    m.contains_key(key)
}

/// Relies on `HashMap::get` and the deterministic `SeaHasher` (see above):
/// the result is the entry stored under `key`, and is `Some` exactly when
/// `contains_key` would answer true.
#[verifier::external_body]
fn table_get<'a, K, V, Q: ?Sized>(m: &'a Table<K, V>, key: &Q) -> (r: Option<&'a V>) where
    K: Borrow<Q> + Hash + Eq,
    Q: Hash + Eq,

    ensures
        obeys_key_model::<K>() ==> match r {
            Some(v) => contains_borrowed_key(m@, key) && maps_borrowed_key_to_value(m@, key, *v),
            None => !contains_borrowed_key(m@, key),
        },
{
    m.get(key)
}

/// Relies on `HashMap::insert` and the deterministic `SeaHasher` (see
/// above): the view gains `key -> val` and the old value under `key`, if
/// any, is returned.  A hash table holds finitely many entries, so the
/// new view's domain is finite whatever the key type does.
#[verifier::external_body]
fn table_insert<K, V>(m: &mut Table<K, V>, key: K, val: V) -> (prev: Option<V>) where
    K: Hash + Eq,

    ensures
        final(m)@.dom().finite(),
        obeys_key_model::<K>() ==> {
            &&& final(m)@ == old(m)@.insert(key, val)
            &&& match prev {
                Some(v) => old(m)@.contains_key(key) && v == old(m)@[key],
                None => !old(m)@.contains_key(key),
            }
        },
{
    m.insert(key, val)
}

/// Steps an iterator once.  This is verified, not trusted: the call goes
/// through the `Iterator` trait bound, whose vstd contract says that
/// `next` pops the head of the remaining sequence, for any iterator that
/// obeys the iterator laws.
fn advance<I: Iterator>(it: &mut I) -> (r: Option<I::Item>)
    ensures
        (*final(it)).obeys_prophetic_iter_laws() == (*old(it)).obeys_prophetic_iter_laws(),
        (*final(it)).obeys_prophetic_iter_laws() ==> ({
            if (*old(it)).remaining().len() > 0 {
                &&& r == Some((*old(it)).remaining()[0])
                &&& (*final(it)).remaining() == (*old(it)).remaining().drop_first()
            } else {
                r is None && (*final(it)).remaining() == (*old(it)).remaining()
            }
        }),
{
    it.next()
}

/// Relies on `HashMap::iter` and the deterministic `SeaHasher` (see
/// above): the cursor will yield exactly the entries of the map, each
/// once — vstd's model of the same method, minus the hasher condition.
#[verifier::external_body]
fn table_iter<'a, K, V>(m: &'a Table<K, V>) -> (it: hash_map::Iter<'a, K, V>) where K: Hash + Eq,
    ensures
        obeys_key_model::<K>() ==> {
            &&& it.remaining().len() == m@.dom().len()
            &&& it.remaining().no_duplicates()
            &&& forall|i: int|
                #![trigger it.remaining()[i]]
                0 <= i < it.remaining().len() ==> m@.contains_key(*it.remaining()[i].0)
                    && m@[*it.remaining()[i].0] == *it.remaining()[i].1
            &&& forall|k: K|
                #[trigger] m@.contains_key(k) ==> it.remaining().contains((&k, &m@[k]))
            &&& it.remaining().unref().to_set() == m@.kv_pairs()
        },
{
    m.iter()
}

/// Relies on `hash_map::Iter::size_hint`: the table's iterator is an
/// `ExactSizeIterator`, so both bounds equal the number of entries it has
/// yet to yield.  No hashing is involved, so nothing is conditional here.
#[verifier::external_body]
fn table_iter_size_hint<'a, K, V>(it: &hash_map::Iter<'a, K, V>) -> (r: (usize, Option<usize>))
    ensures
        r.0 == it.remaining().len(),
        r.1 == Some(r.0),
{
    it.size_hint()
}

} // verus!
