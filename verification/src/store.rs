//! A key-value store that is only ever added to.
//!
//! The store keeps every write in the order in which it was made. A read
//! answers with the most recent write to the key, so a write is visible to
//! every read that follows it, including reads made for the same block.

use vstd::prelude::*;

use crate::address::Address;

verus! {

/// One write: a key and the address recorded under it.
#[derive(Clone, Debug, PartialEq, Eq)]
pub struct Record {
    pub key: String,
    pub value: Address,
}

/// The contents of a store that held `contents` after `writes` were made to
/// it in order: each key holds the value of the last write to it, and a key
/// that no write names holds what it held.
pub open spec fn apply_writes(
    contents: Map<Seq<char>, Address>,
    writes: Seq<Record>,
) -> Map<Seq<char>, Address>
    decreases writes.len(),
{
    if writes.len() == 0 {
        contents
    } else {
        apply_writes(contents, writes.drop_last()).insert(writes.last().key@, writes.last().value)
    }
}

/// A key that no write names is as present as it was.
proof fn lemma_no_write(contents: Map<Seq<char>, Address>, writes: Seq<Record>, key: Seq<char>)
    requires
        forall|j: int| 0 <= j < writes.len() ==> writes[j].key@ != key,
    ensures
        apply_writes(contents, writes).dom().contains(key) == contents.dom().contains(key),
    decreases writes.len(),
{
    if writes.len() > 0 {
        lemma_no_write(contents, writes.drop_last(), key);
    }
}

/// A key holds the value of the last write that names it.
proof fn lemma_last_write(
    contents: Map<Seq<char>, Address>,
    writes: Seq<Record>,
    key: Seq<char>,
    i: int,
)
    requires
        0 <= i < writes.len(),
        writes[i].key@ == key,
        forall|j: int| i < j < writes.len() ==> writes[j].key@ != key,
    ensures
        apply_writes(contents, writes).dom().contains(key),
        apply_writes(contents, writes)[key] == writes[i].value,
    decreases writes.len(),
{
    if i < writes.len() - 1 {
        lemma_last_write(contents, writes.drop_last(), key, i);
    }
}

/// A store from text keys to addresses.
///
/// Its view is the map from each key that was ever written to the value of
/// the most recent write. Nothing removes a key.
#[derive(Clone, Debug)]
pub struct KeyValueStore {
    writes: Vec<Record>,
}

impl View for KeyValueStore {
    type V = Map<Seq<char>, Address>;

    closed spec fn view(&self) -> Map<Seq<char>, Address> {
        apply_writes(Map::empty(), self.writes@)
    }
}

impl KeyValueStore {
    /// An empty store.
    pub fn new() -> (store: KeyValueStore)
        ensures
            store@ == Map::<Seq<char>, Address>::empty(),
    {
        KeyValueStore { writes: Vec::new() }
    }

    /// Writes `value` under `key`. A value already there is replaced; every
    /// other key keeps what it had.
    pub fn set(&mut self, key: String, value: Address)
        ensures
            final(self)@ == old(self)@.insert(key@, value),
    {
        let ghost before = self.writes@;
        self.writes.push(Record { key, value });
        assert(self.writes@.drop_last() =~= before);
    }

    /// The most recent value written under `key`, or `None` where the key was
    /// never written.
    pub fn get_last(&self, key: &String) -> (found: Option<Address>)
        ensures
            found == (if self@.dom().contains(key@) {
                Some(self@[key@])
            } else {
                None
            }),
    {
        let mut i: usize = self.writes.len();
        while i > 0
            invariant
                i <= self.writes@.len(),
                forall|j: int| i <= j < self.writes@.len() ==> self.writes@[j].key@ != key@,
            decreases i,
        {
            i -= 1;
            if self.writes[i].key == *key {
                proof {
                    lemma_last_write(Map::empty(), self.writes@, key@, i as int);
                }
                return Some(self.writes[i].value);
            }
        }
        proof {
            lemma_no_write(Map::empty(), self.writes@, key@);
        }
        None
    }
}

/// Writing the same value under the same key a second time changes nothing:
/// not right after the first write, and not later, in another block, as long
/// as the key still holds that value. Every read answers as before.
pub proof fn lemma_set_idempotent(contents: Map<Seq<char>, Address>, key: Seq<char>, value: Address)
    ensures
        contents.insert(key, value).insert(key, value) == contents.insert(key, value),
        contents.dom().contains(key) && contents[key] == value ==> contents.insert(key, value)
            == contents,
{
    assert(contents.insert(key, value).insert(key, value) =~= contents.insert(key, value));
    if contents.dom().contains(key) && contents[key] == value {
        assert(contents.insert(key, value) =~= contents);
    }
}

} // verus!
