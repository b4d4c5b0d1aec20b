use vstd::prelude::*;
use vstd::hash_map::StringHashMap;
use crate::store_value::StoreValue;

verus! {

/// The store as the contracts see it: each key maps to the value and the
/// time-to-live of its entry.
pub type StoreModel = Map<Seq<char>, (Seq<char>, i64)>;

/// What a lookup in the store model yields: the value stored under `key`, or
/// `None` when the key is absent.
pub open spec fn lookup(m: StoreModel, key: Seq<char>) -> Option<Seq<char>> {
    if m.contains_key(key) {
        Some(m[key].0)
    } else {
        None
    }
}

/// What a delete in the store model hands back: the removed value, or the
/// empty string when the key was absent.
pub open spec fn removed_value(m: StoreModel, key: Seq<char>) -> Seq<char> {
    if m.contains_key(key) {
        m[key].0
    } else {
        Seq::empty()
    }
}

/// The message of the error that `get` returns on a missing key.
pub open spec fn key_not_found_message() -> Seq<char> {
    "Key not found"@
}

/// An in-memory map from keys to entries.
pub struct Store {
    store: StringHashMap<StoreValue>,
}

impl View for Store {
    type V = StoreModel;

    closed spec fn view(&self) -> StoreModel {
        self.store@.map_values(|e: StoreValue| e@)
    }
}

impl Store {
    /// An empty store.
    pub fn new() -> (r: Store)
        ensures
            r@ == StoreModel::empty(),
    {
        let r = Store { store: StringHashMap::new() };
        assert(r@ =~= StoreModel::empty());
        r
    }

    /// The value stored under `key`; an error when there is none.
    pub fn get(&self, key: &String) -> (r: Result<String, &'static str>)
        ensures
            match r {
                Ok(v) => lookup(self@, key@) == Some(v@),
                Err(e) => lookup(self@, key@) is None && e@ == key_not_found_message(),
            },
    {
        let fetch = self.store.get(key.as_str());
        match fetch {
            Some(store_value) => Ok(store_value.value.clone()),
            None => Err("Key not found"),
        }
    }

    /// Stores `value` with `ttl` under `key`, replacing any earlier entry
    /// whole, and returns the value written.
    pub fn set(&mut self, key: &String, value: &String, ttl: &i64) -> (r: Result<String, &'static str>)
        ensures
            final(self)@ == old(self)@.insert(key@, (value@, *ttl)),
            r is Ok,
            r->Ok_0@ == value@,
    {
        let store_value = StoreValue { value: value.clone(), ttl: *ttl };
        self.store.insert(key.clone(), store_value);
        assert(self@ =~= old(self)@.insert(key@, (value@, *ttl)));
        Ok(value.clone())
    }

    /// Removes the entry under `key` and returns its value, or the empty
    /// string when there was none. Never fails.
    pub fn delete(&mut self, key: &String) -> (r: Result<String, &'static str>)
        ensures
            final(self)@ == old(self)@.remove(key@),
            r is Ok,
            r->Ok_0@ == removed_value(old(self)@, key@),
    {
        let removed = match self.store.get(key.as_str()) {
            Some(deleted_value) => deleted_value.value.clone(),
            None => String::new(),
        };
        self.store.remove(key.as_str());
        assert(self@ =~= old(self)@.remove(key@));
        Ok(removed)
    }
}

/// A fresh store holds no key: a lookup of any key finds nothing.
pub proof fn lemma_new_store_not_found(key: Seq<char>)
    ensures
        lookup(StoreModel::empty(), key) is None,
{
}

/// Setting one key leaves every other key that was never set unset: a lookup
/// of it still finds nothing.
pub proof fn lemma_set_keeps_other_key_unset(
    m: StoreModel,
    key: Seq<char>,
    other: Seq<char>,
    value: Seq<char>,
    ttl: i64,
)
    requires
        lookup(m, key) is None,
        other != key,
    ensures
        lookup(m.insert(other, (value, ttl)), key) is None,
{
}

/// After a key is set, a lookup of it yields the value just written, whatever
/// the time-to-live.
pub proof fn lemma_set_then_get(
    m: StoreModel,
    key: Seq<char>,
    value: Seq<char>,
    ttl: i64,
)
    ensures
        lookup(m.insert(key, (value, ttl)), key) == Some(value),
{
}

/// Setting a key twice keeps only the second entry, whole: the store is as if
/// the first set had not happened, and a lookup yields the second value.
pub proof fn lemma_set_replaces_entry(
    m: StoreModel,
    key: Seq<char>,
    first: Seq<char>,
    first_ttl: i64,
    second: Seq<char>,
    second_ttl: i64,
)
    ensures
        m.insert(key, (first, first_ttl)).insert(key, (second, second_ttl)) == m.insert(
            key,
            (second, second_ttl),
        ),
        lookup(m.insert(key, (first, first_ttl)).insert(key, (second, second_ttl)), key) == Some(
            second,
        ),
{
    assert(m.insert(key, (first, first_ttl)).insert(key, (second, second_ttl)) =~= m.insert(
        key,
        (second, second_ttl),
    ));
}

/// After a key is deleted a lookup of it finds nothing, whether or not it was
/// present before.
pub proof fn lemma_delete_then_get(m: StoreModel, key: Seq<char>)
    ensures
        lookup(m.remove(key), key) is None,
{
}

/// Deleting a key that is absent hands back the empty string and leaves the
/// store as it was.
pub proof fn lemma_delete_missing(m: StoreModel, key: Seq<char>)
    requires
        lookup(m, key) is None,
    ensures
        removed_value(m, key) == Seq::<char>::empty(),
        m.remove(key) == m,
{
    assert(m.remove(key) =~= m);
}

} // verus!
