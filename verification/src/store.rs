//! The mapping from keys to records.

use crate::record::{Record, RecordView};
use vstd::hash_map::StringHashMap;
use vstd::prelude::*;

verus! {

/// A mapping from string keys to records. Each key is bound to at most one
/// record.
pub struct Store {
    entries: StringHashMap<Record>,
}

impl View for Store {
    type V = Map<Seq<char>, RecordView>;

    closed spec fn view(&self) -> Map<Seq<char>, RecordView> {
        self.entries@.map_values(|record: Record| record@)
    }
}

/// The mapping `entries` after `key` is bound to `value`: an earlier binding
/// of `key` is gone, the other keys keep their records.
pub open spec fn bind(
    entries: Map<Seq<char>, RecordView>,
    key: Seq<char>,
    value: RecordView,
) -> Map<Seq<char>, RecordView> {
    entries.insert(key, value)
}

/// The record that `key` is bound to in `entries`, if any.
pub open spec fn lookup(entries: Map<Seq<char>, RecordView>, key: Seq<char>) -> Option<
    RecordView,
> {
    if entries.contains_key(key) {
        Some(entries[key])
    } else {
        None
    }
}

impl Store {
    /// A store without any key.
    pub fn new() -> (store: Store)
        ensures
            store@ == Map::<Seq<char>, RecordView>::empty(),
    {
        let store = Store { entries: StringHashMap::new() };
        assert(store@ =~= Map::<Seq<char>, RecordView>::empty());
        store
    }
}

/// Binds `key` to `value`, in place of whatever `key` was bound to.
pub fn set(db: &mut Store, key: String, value: Record)
    ensures
        final(db)@ == bind(old(db)@, key@, value@),
{
    db.entries.insert(key, value);
    assert(db@ =~= bind(old(db)@, key@, value@));
}

/// A copy of the record that `key` is bound to, if any.
pub fn get(db: &Store, key: &String) -> (found: Option<Record>)
    ensures
        found.deep_view() == lookup(db@, key@),
{
    match db.entries.get(key.as_str()) {
        Some(record) => Some(record.clone()),
        None => None,
    }
}

/// A key that was set is bound to the value it was set to.
pub proof fn lemma_get_after_set(
    entries: Map<Seq<char>, RecordView>,
    key: Seq<char>,
    value: RecordView,
)
    ensures
        lookup(bind(entries, key, value), key) == Some(value),
{
}

/// Setting a key leaves every other key as it was.
pub proof fn lemma_set_keeps_other_keys(
    entries: Map<Seq<char>, RecordView>,
    key: Seq<char>,
    value: RecordView,
    other: Seq<char>,
)
    requires
        other != key,
    ensures
        lookup(bind(entries, key, value), other) == lookup(entries, other),
{
}

/// The last write wins: of two values set for one key, one after the other,
/// only the second is left.
pub proof fn lemma_last_write_wins(
    entries: Map<Seq<char>, RecordView>,
    key: Seq<char>,
    first: RecordView,
    second: RecordView,
)
    ensures
        bind(bind(entries, key, first), key, second) == bind(entries, key, second),
        lookup(bind(bind(entries, key, first), key, second), key) == Some(second),
{
    assert(bind(bind(entries, key, first), key, second) =~= bind(entries, key, second));
}

/// A key that is bound to nothing is not found, and a new store binds no key.
pub proof fn lemma_get_absent(entries: Map<Seq<char>, RecordView>, key: Seq<char>)
    ensures
        !entries.contains_key(key) ==> lookup(entries, key) == None::<RecordView>,
        lookup(Map::<Seq<char>, RecordView>::empty(), key) == None::<RecordView>,
{
}

} // verus!
