//! The durable key-value store of the registry.

use vstd::prelude::*;
use crate::address::Address;
use crate::records::{AccessGrant, AccessPermission, IdentityData, IdentityRecord};

verus! {

/// The keys under which the registry keeps its state.
#[derive(Debug, PartialEq, Eq)]
pub enum DataKey {
    /// The record of the identity with this ID.
    Identity(String),
    /// The grant on the identity with this ID to this principal.
    Access(String, Address),
    /// The administrator.
    Admin,
    /// The number of identities ever created.
    TotalIdentities,
    /// The IDs that this principal registered, in order of creation.
    IdentityByOwner(Address),
}

/// Mathematical model of a [`DataKey`].
pub enum Key {
    Identity(Seq<char>),
    Access(Seq<char>, Seq<char>),
    Admin,
    TotalIdentities,
    IdentityByOwner(Seq<char>),
}

impl View for DataKey {
    type V = Key;

    open spec fn view(&self) -> Key {
        match self {
            DataKey::Identity(id) => Key::Identity(id@),
            DataKey::Access(id, grantee) => Key::Access(id@, grantee@),
            DataKey::Admin => Key::Admin,
            DataKey::TotalIdentities => Key::TotalIdentities,
            DataKey::IdentityByOwner(owner) => Key::IdentityByOwner(owner@),
        }
    }
}

impl DataKey {
    /// Whether both keys name the same place in the store.
    pub fn same(&self, other: &DataKey) -> (b: bool)
        ensures
            b == (self@ == other@),
    {
        match (self, other) {
            (DataKey::Identity(a), DataKey::Identity(b)) => *a == *b,
            (DataKey::Access(a, p), DataKey::Access(b, q)) => *a == *b && p.same(q),
            (DataKey::Admin, DataKey::Admin) => true,
            (DataKey::TotalIdentities, DataKey::TotalIdentities) => true,
            (DataKey::IdentityByOwner(p), DataKey::IdentityByOwner(q)) => p.same(q),
            _ => false,
        }
    }
}

impl Clone for DataKey {
    fn clone(&self) -> (k: DataKey)
        ensures
            k@ == self@,
    {
        match self {
            DataKey::Identity(id) => DataKey::Identity(id.clone()),
            DataKey::Access(id, grantee) => DataKey::Access(id.clone(), grantee.clone()),
            DataKey::Admin => DataKey::Admin,
            DataKey::TotalIdentities => DataKey::TotalIdentities,
            DataKey::IdentityByOwner(owner) => DataKey::IdentityByOwner(owner.clone()),
        }
    }
}

/// What the store keeps under a key.
#[derive(Debug, PartialEq, Eq)]
pub enum StoredValue {
    Identity(IdentityData),
    Access(AccessPermission),
    Admin(Address),
    Total(u32),
    Identities(Vec<String>),
}

/// Mathematical model of a [`StoredValue`].
pub enum Value {
    Identity(IdentityRecord),
    Access(AccessGrant),
    Admin(Seq<char>),
    Total(u32),
    Identities(Seq<Seq<char>>),
}

/// The model of a list of IDs: the list of their texts.
pub open spec fn texts(ids: Seq<String>) -> Seq<Seq<char>> {
    Seq::new(ids.len(), |i: int| ids[i]@)
}

impl View for StoredValue {
    type V = Value;

    open spec fn view(&self) -> Value {
        match self {
            StoredValue::Identity(data) => Value::Identity(data@),
            StoredValue::Access(permission) => Value::Access(permission@),
            StoredValue::Admin(admin) => Value::Admin(admin@),
            StoredValue::Total(n) => Value::Total(*n),
            StoredValue::Identities(ids) => Value::Identities(texts(ids@)),
        }
    }
}

/// Whether a value is of the kind that belongs under a key.
pub open spec fn fits(key: Key, value: Value) -> bool {
    match key {
        Key::Identity(_) => value is Identity,
        Key::Access(_, _) => value is Access,
        Key::Admin => value is Admin,
        Key::TotalIdentities => value is Total,
        Key::IdentityByOwner(_) => value is Identities,
    }
}

impl DataKey {
    /// Whether `value` is of the kind that belongs under this key.
    pub fn accepts(&self, value: &StoredValue) -> (b: bool)
        ensures
            b == fits(self@, value@),
    {
        match (self, value) {
            (DataKey::Identity(_), StoredValue::Identity(_)) => true,
            (DataKey::Access(_, _), StoredValue::Access(_)) => true,
            (DataKey::Admin, StoredValue::Admin(_)) => true,
            (DataKey::TotalIdentities, StoredValue::Total(_)) => true,
            (DataKey::IdentityByOwner(_), StoredValue::Identities(_)) => true,
            _ => false,
        }
    }
}

/// One key of the store with the value kept under it.
struct Entry {
    key: DataKey,
    value: StoredValue,
}

/// A durable map from keys to values.
///
/// No key occurs twice, and every value is of the kind that belongs under its
/// key.
pub struct Storage {
    entries: Vec<Entry>,
}

/// Whether `entries` holds `key` at position `i`.
spec fn holds_at(entries: Seq<Entry>, i: int, key: Key) -> bool {
    0 <= i < entries.len() && entries[i].key@ == key
}

/// Whether `entries` holds `key` at some position.
spec fn holds(entries: Seq<Entry>, key: Key) -> bool {
    exists|i: int| holds_at(entries, i, key)
}

/// A position at which `entries` holds `key`, if there is one.
spec fn position(entries: Seq<Entry>, key: Key) -> int {
    choose|i: int| holds_at(entries, i, key)
}

/// No key occurs twice in `entries`.
spec fn distinct(entries: Seq<Entry>) -> bool {
    forall|i: int, j: int|
        0 <= i < j < entries.len() ==> (#[trigger] entries[i]).key@ != (#[trigger] entries[j]).key@
}

/// Every value in `entries` is of the kind that belongs under its key.
spec fn well_kinded(entries: Seq<Entry>) -> bool {
    forall|i: int|
        0 <= i < entries.len() ==> fits((#[trigger] entries[i]).key@, entries[i].value@)
}

/// The map that `entries` stands for.
spec fn contents(entries: Seq<Entry>) -> Map<Key, Value> {
    Map::new(
        |key: Key| holds(entries, key),
        |key: Key| entries[position(entries, key)].value@,
    )
}

/// In a list without repeated keys, a key found at `i` is mapped to the value
/// at `i`.
proof fn lemma_contents_at(entries: Seq<Entry>, i: int)
    requires
        distinct(entries),
        0 <= i < entries.len(),
    ensures
        contents(entries).contains_key(entries[i].key@),
        contents(entries)[entries[i].key@] == entries[i].value@,
{
    let key = entries[i].key@;
    assert(holds_at(entries, i, key));
    let j = position(entries, key);
    assert(holds_at(entries, j, key));
    assert(i == j) by {
        if i < j {
            assert(entries[i].key@ != entries[j].key@);
        } else if j < i {
            assert(entries[j].key@ != entries[i].key@);
        }
    }
}

/// Replacing the value at the position of a key maps that key to the new
/// value and leaves the other keys as they were.
proof fn lemma_contents_update(entries: Seq<Entry>, i: int, entry: Entry)
    requires
        distinct(entries),
        0 <= i < entries.len(),
        entry.key@ == entries[i].key@,
    ensures
        distinct(entries.update(i, entry)),
        contents(entries.update(i, entry)) == contents(entries).insert(entry.key@, entry.value@),
{
    let after = entries.update(i, entry);
    assert(distinct(after)) by {
        assert forall|a: int, b: int| 0 <= a < b < after.len() implies (#[trigger] after[a]).key@
            != (#[trigger] after[b]).key@ by {
            assert(entries[a].key@ != entries[b].key@);
        }
    }
    let expected = contents(entries).insert(entry.key@, entry.value@);
    assert forall|key: Key| contents(after).contains_key(key) == expected.contains_key(key) by {
        if holds(after, key) {
            let j = position(after, key);
            assert(holds_at(after, j, key));
            assert(holds_at(entries, j, key));
        }
        if holds(entries, key) {
            let j = position(entries, key);
            assert(holds_at(entries, j, key));
            assert(holds_at(after, j, key));
        }
        assert(holds_at(after, i, entry.key@));
    }
    assert forall|key: Key| contents(after).contains_key(key) implies contents(after)[key]
        == expected[key] by {
        let j = position(after, key);
        assert(holds_at(after, j, key));
        lemma_contents_at(after, j);
        if j != i {
            assert(holds_at(entries, j, key));
            lemma_contents_at(entries, j);
            assert(entries[j].key@ != entries[i].key@) by {
                if j < i {
                    assert(entries[j].key@ != entries[i].key@);
                } else {
                    assert(entries[i].key@ != entries[j].key@);
                }
            }
        }
    }
    assert(contents(after) =~= expected);
}

/// Appending a key that the list does not hold maps that key to its value and
/// leaves the other keys as they were.
proof fn lemma_contents_push(entries: Seq<Entry>, entry: Entry)
    requires
        distinct(entries),
        !holds(entries, entry.key@),
    ensures
        distinct(entries.push(entry)),
        contents(entries.push(entry)) == contents(entries).insert(entry.key@, entry.value@),
{
    let after = entries.push(entry);
    let last = entries.len() as int;
    assert(distinct(after)) by {
        assert forall|a: int, b: int| 0 <= a < b < after.len() implies (#[trigger] after[a]).key@
            != (#[trigger] after[b]).key@ by {
            if b == last {
                assert(!holds_at(entries, a, entry.key@));
            } else {
                assert(entries[a].key@ != entries[b].key@);
            }
        }
    }
    let expected = contents(entries).insert(entry.key@, entry.value@);
    assert forall|key: Key| contents(after).contains_key(key) == expected.contains_key(key) by {
        if holds(after, key) {
            let j = position(after, key);
            assert(holds_at(after, j, key));
            if j != last {
                assert(holds_at(entries, j, key));
            }
        }
        if holds(entries, key) {
            let j = position(entries, key);
            assert(holds_at(entries, j, key));
            assert(holds_at(after, j, key));
        }
        assert(holds_at(after, last, entry.key@));
    }
    assert forall|key: Key| contents(after).contains_key(key) implies contents(after)[key]
        == expected[key] by {
        let j = position(after, key);
        assert(holds_at(after, j, key));
        lemma_contents_at(after, j);
        if j != last {
            assert(holds_at(entries, j, key));
            lemma_contents_at(entries, j);
        }
    }
    assert(contents(after) =~= expected);
}

/// Taking out the entry at the position of a key unmaps that key and leaves
/// the other keys as they were.
proof fn lemma_contents_remove(entries: Seq<Entry>, i: int)
    requires
        distinct(entries),
        0 <= i < entries.len(),
    ensures
        distinct(entries.remove(i)),
        contents(entries.remove(i)) == contents(entries).remove(entries[i].key@),
{
    let after = entries.remove(i);
    let gone = entries[i].key@;
    assert forall|a: int| 0 <= a < after.len() implies #[trigger] after[a] == (if a < i {
        entries[a]
    } else {
        entries[a + 1]
    }) by {}
    assert(distinct(after)) by {
        assert forall|a: int, b: int| 0 <= a < b < after.len() implies (#[trigger] after[a]).key@
            != (#[trigger] after[b]).key@ by {
            let a0 = if a < i { a } else { a + 1 };
            let b0 = if b < i { b } else { b + 1 };
            assert(entries[a0].key@ != entries[b0].key@);
        }
    }
    let expected = contents(entries).remove(gone);
    assert forall|key: Key| contents(after).contains_key(key) == expected.contains_key(key) by {
        if holds(after, key) {
            let j = position(after, key);
            assert(holds_at(after, j, key));
            let j0 = if j < i { j } else { j + 1 };
            assert(holds_at(entries, j0, key));
            assert(key != gone) by {
                if j0 < i {
                    assert(entries[j0].key@ != entries[i].key@);
                } else {
                    assert(entries[i].key@ != entries[j0].key@);
                }
            }
        }
        if holds(entries, key) && key != gone {
            let j = position(entries, key);
            assert(holds_at(entries, j, key));
            let j1 = if j < i { j } else { j - 1 };
            assert(holds_at(after, j1, key));
        }
    }
    assert forall|key: Key| contents(after).contains_key(key) implies contents(after)[key]
        == expected[key] by {
        let j = position(after, key);
        assert(holds_at(after, j, key));
        lemma_contents_at(after, j);
        let j0 = if j < i { j } else { j + 1 };
        assert(holds_at(entries, j0, key));
        lemma_contents_at(entries, j0);
    }
    assert(contents(after) =~= expected);
}

impl View for Storage {
    type V = Map<Key, Value>;

    closed spec fn view(&self) -> Map<Key, Value> {
        contents(self.entries@)
    }
}

/// Every value of a map is of the kind that belongs under its key.
pub open spec fn kinds_fit(m: Map<Key, Value>) -> bool {
    forall|key: Key| #[trigger] m.contains_key(key) ==> fits(key, m[key])
}

impl Storage {
    #[verifier::type_invariant]
    spec fn inv(&self) -> bool {
        distinct(self.entries@) && well_kinded(self.entries@)
    }

    /// A store that holds nothing.
    pub fn new() -> (s: Storage)
        ensures
            s@ == Map::<Key, Value>::empty(),
    {
        let s = Storage { entries: Vec::new() };
        proof {
            assert forall|key: Key| !holds(s.entries@, key) by {
                assert forall|i: int| !holds_at(s.entries@, i, key) by {}
            }
            assert(s@ =~= Map::<Key, Value>::empty());
        }
        s
    }

    /// Takes the entries out, leaving none.
    fn take_entries(&mut self) -> (entries: Vec<Entry>)
        ensures
            entries@ == old(self).entries@,
    {
        let mut entries: Vec<Entry> = Vec::new();
        core::mem::swap(&mut self.entries, &mut entries);
        entries
    }

    /// Puts `entries` in place of the entries.
    fn put_entries(&mut self, entries: Vec<Entry>)
        requires
            distinct(entries@),
            well_kinded(entries@),
        ensures
            final(self).entries@ == entries@,
    {
        let mut entries = entries;
        core::mem::swap(&mut self.entries, &mut entries);
    }

    /// The position of `key` among the entries.
    fn find(&self, key: &DataKey) -> (r: Option<usize>)
        ensures
            match r {
                Some(i) => holds_at(self.entries@, i as int, key@),
                None => !holds(self.entries@, key@),
            },
    {
        let mut i: usize = 0;
        while i < self.entries.len()
            invariant
                i <= self.entries.len(),
                forall|j: int| 0 <= j < i ==> !holds_at(self.entries@, j, key@),
            decreases self.entries.len() - i,
        {
            if self.entries[i].key.same(key) {
                return Some(i);
            }
            i += 1;
        }
        None
    }

    /// Whether anything is kept under `key`.
    pub fn has(&self, key: &DataKey) -> (b: bool)
        ensures
            b == self@.contains_key(key@),
    {
        self.find(key).is_some()
    }

    /// What is kept under `key`, if anything.
    pub fn get(&self, key: &DataKey) -> (r: Option<&StoredValue>)
        ensures
            kinds_fit(self@),
            match r {
                Some(value) => self@.contains_key(key@) && self@[key@] == value@,
                None => !self@.contains_key(key@),
            },
    {
        proof {
            use_type_invariant(self);
            self.lemma_kinds_fit();
        }
        match self.find(key) {
            Some(i) => {
                proof {
                    lemma_contents_at(self.entries@, i as int);
                }
                Some(&self.entries[i].value)
            },
            None => None,
        }
    }

    /// Keeps `value` under `key`, in place of what was there, if the value is
    /// of the kind that belongs under the key; else changes nothing.
    pub fn set(&mut self, key: DataKey, value: StoredValue) -> (stored: bool)
        ensures
            stored == fits(key@, value@),
            stored ==> final(self)@ == old(self)@.insert(key@, value@),
            !stored ==> final(self)@ == old(self)@,
    {
        proof {
            use_type_invariant(&*self);
        }
        if !key.accepts(&value) {
            return false;
        }
        let found = self.find(&key);
        let entry = Entry { key, value };
        match found {
            Some(i) => {
                proof {
                    lemma_contents_update(self.entries@, i as int, entry);
                    assert(well_kinded(self.entries@.update(i as int, entry)));
                }
                let mut entries = self.take_entries();
                entries[i] = entry;
                self.put_entries(entries);
            },
            None => {
                proof {
                    lemma_contents_push(self.entries@, entry);
                    assert(well_kinded(self.entries@.push(entry)));
                }
                let mut entries = self.take_entries();
                entries.push(entry);
                self.put_entries(entries);
            },
        }
        true
    }

    /// Forgets what is kept under `key`, if anything.
    pub fn remove(&mut self, key: &DataKey)
        ensures
            final(self)@ == old(self)@.remove(key@),
    {
        proof {
            use_type_invariant(&*self);
        }
        match self.find(key) {
            Some(i) => {
                proof {
                    lemma_contents_remove(self.entries@, i as int);
                    assert(well_kinded(self.entries@.remove(i as int)));
                }
                let mut entries = self.take_entries();
                let _ = entries.remove(i);
                self.put_entries(entries);
            },
            None => {
                assert(old(self)@.remove(key@) =~= old(self)@);
            },
        }
    }

    /// The kinds fit in the map of a store whose entries are well kinded.
    proof fn lemma_kinds_fit(&self)
        requires
            distinct(self.entries@),
            well_kinded(self.entries@),
        ensures
            kinds_fit(self@),
    {
        assert forall|key: Key| #[trigger] self@.contains_key(key) implies fits(key, self@[key]) by {
            let i = position(self.entries@, key);
            assert(holds_at(self.entries@, i, key));
            lemma_contents_at(self.entries@, i);
        }
    }
}

} // verus!
