//! An in-memory associative store mapping string keys to string values.
//!
//! The store owns a single mapping from `String` keys to `String` values,
//! with at most one value per key; inserting an existing key overwrites its
//! value. Every operation is total: absence of a key is an ordinary outcome,
//! reported as `None`, never an error. The store is not thread-safe without
//! external synchronization.
//!
//! The abstract state of a store is a `Map<Seq<char>, Seq<char>>`, and every
//! operation's contract says exactly how it reads or updates that map.

use vstd::hash_map::StringHashMap;
use vstd::prelude::*;

verus! {

/// A simple key-value store implementation.
pub struct KeyValueStore {
    data: StringHashMap<String>,
}

impl View for KeyValueStore {
    type V = Map<Seq<char>, Seq<char>>;

    /// The abstract content of the store: its keys and values as
    /// sequences of characters.
    closed spec fn view(&self) -> Map<Seq<char>, Seq<char>> {
        self.data@.map_values(|v: String| v@)
    }
}

impl KeyValueStore {
    /// The backing map always holds finitely many keys.
    #[verifier::type_invariant]
    closed spec fn wf(self) -> bool {
        self.data@.dom().finite()
    }

    /// Creates a new empty KeyValueStore.
    pub fn new() -> (store: Self)
        ensures
            store@ == Map::<Seq<char>, Seq<char>>::empty(),
    {
        KeyValueStore { data: StringHashMap::new() }
    }

    /// Inserts a key-value pair into the store.
    ///
    /// Always succeeds. Overwrites the value of a key already present; the
    /// count grows by one exactly when the key was absent.
    pub fn insert(&mut self, key: String, value: String)
        ensures
            final(self)@ == old(self)@.insert(key@, value@),
            old(self)@.contains_key(key@) ==> final(self)@.len() == old(self)@.len(),
            !old(self)@.contains_key(key@) ==> final(self)@.len() == old(self)@.len() + 1,
    {
        let ghost k = key@;
        let ghost v = value@;
        proof {
            use_type_invariant(&*self);
            assert(self@.dom() =~= self.data@.dom());
        }
        let mut data = StringHashMap::<String>::new();
        std::mem::swap(&mut data, &mut self.data);
        data.insert(key, value);
        self.data = data;
        proof {
            assert(self@ =~= old(self)@.insert(k, v));
            assert(self@.dom() =~= old(self)@.dom().insert(k));
        }
    }

    /// Retrieves a value by key: the current value if the key is present,
    /// `None` if it is absent.
    pub fn get<'a>(&'a self, key: &str) -> (result: Option<&'a String>)
        ensures
            match result {
                Some(value) => self@.contains_key(key@) && value@ == self@[key@],
                None => !self@.contains_key(key@),
            },
    {
        self.data.get(key)
    }

    /// Removes a key-value pair from the store, returning the removed value,
    /// or `None` if the key was absent (in which case the store is unchanged).
    pub fn remove(&mut self, key: &str) -> (result: Option<String>)
        ensures
            final(self)@ == old(self)@.remove(key@),
            match result {
                Some(value) => old(self)@.contains_key(key@) && value@ == old(self)@[key@],
                None => !old(self)@.contains_key(key@),
            },
            old(self)@.contains_key(key@) ==> final(self)@.len() + 1 == old(self)@.len(),
            !old(self)@.contains_key(key@) ==> final(self)@ == old(self)@,
    {
        let ghost k = key@;
        proof {
            use_type_invariant(&*self);
            assert(self@.dom() =~= self.data@.dom());
        }
        let result = match self.data.get(key) {
            Some(value) => Some(value.clone()),
            None => None,
        };
        let mut data = StringHashMap::<String>::new();
        std::mem::swap(&mut data, &mut self.data);
        data.remove(key);
        self.data = data;
        proof {
            assert(self@ =~= old(self)@.remove(k));
            assert(self@.dom() =~= old(self)@.dom().remove(k));
            if !old(self)@.contains_key(k) {
                assert(self@ =~= old(self)@);
            }
        }
        result
    }

    /// Returns the number of items in the store.
    pub fn len(&self) -> (count: usize)
        ensures
            count == self@.len(),
    {
        proof {
            assert(self@.dom() =~= self.data@.dom());
        }
        self.data.len()
    }

    /// Checks if the store is empty: true exactly when the count is zero,
    /// that is, when no key is present.
    pub fn is_empty(&self) -> (empty: bool)
        ensures
            empty == (self@.len() == 0),
            empty == self@.is_empty(),
    {
        proof {
            use_type_invariant(&*self);
            assert(self@.dom() =~= self.data@.dom());
            if self@.len() == 0 {
                self@.dom().lemma_len0_is_empty();
            }
        }
        self.data.is_empty()
    }
}

impl Default for KeyValueStore {
    /// A default store is an empty store.
    fn default() -> (store: Self)
        ensures
            store@ == Map::<Seq<char>, Seq<char>>::empty(),
    {
        Self::new()
    }
}

/// After `insert(k, v)`, the key `k` is present and `get(k)` returns `v`:
/// looking `k` up in the updated content yields exactly `v`.
pub proof fn lemma_insert_then_get(m: Map<Seq<char>, Seq<char>>, k: Seq<char>, v: Seq<char>)
    ensures
        m.insert(k, v).contains_key(k),
        m.insert(k, v)[k] == v,
{
}

/// A key that was never inserted, or was removed, is absent, so `get(k)`
/// returns `None`: an empty store holds no key, and a store holds no key
/// just removed from it.
pub proof fn lemma_absent_key(m: Map<Seq<char>, Seq<char>>, k: Seq<char>)
    ensures
        !Map::<Seq<char>, Seq<char>>::empty().contains_key(k),
        !m.remove(k).contains_key(k),
{
}

/// Removing a key is idempotent: after a removal of `k`, removing `k` again
/// finds it absent, returns `None`, and leaves the content unchanged.
pub proof fn lemma_remove_idempotent(m: Map<Seq<char>, Seq<char>>, k: Seq<char>)
    ensures
        !m.remove(k).contains_key(k),
        m.remove(k).remove(k) == m.remove(k),
{
    assert(m.remove(k).remove(k) =~= m.remove(k));
}

/// Overwrite semantics: `insert(k, v1)` followed by `insert(k, v2)` leaves
/// the store as if only `insert(k, v2)` had happened, so `get(k)` returns
/// `v2`, and the second insert does not change the count.
pub proof fn lemma_insert_overwrite(
    m: Map<Seq<char>, Seq<char>>,
    k: Seq<char>,
    v1: Seq<char>,
    v2: Seq<char>,
)
    ensures
        m.insert(k, v1).insert(k, v2) == m.insert(k, v2),
        m.insert(k, v1).insert(k, v2)[k] == v2,
        m.insert(k, v1).insert(k, v2).len() == m.insert(k, v1).len(),
{
    assert(m.insert(k, v1).insert(k, v2) =~= m.insert(k, v2));
    assert(m.insert(k, v1).insert(k, v2).dom() =~= m.insert(k, v1).dom());
}

} // verus!
