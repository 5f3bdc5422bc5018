//! A map from property names to values, kept in the order of the names.

use vstd::prelude::*;
use crate::codec::{first_refused, lemma_first_refused, under, DecodeError, JsonCodec};
use crate::json::{members_view, push_member, Json, JsonModel};
use crate::text::{
    compare_keys, key_before, lemma_key_before_irreflexive, lemma_key_before_transitive, KeyOrder,
};

verus! {

/// The names of `entries` stand in strictly increasing order, so none occurs
/// twice.
pub open spec fn strictly_sorted<V>(entries: Seq<(Seq<char>, V)>) -> bool {
    forall|i: int, j: int|
        0 <= i < j < entries.len() ==> key_before(
            #[trigger] entries[i].0,
            #[trigger] entries[j].0,
        )
}

/// Some entry of `entries` has the name `key`.
pub open spec fn has_key<V>(entries: Seq<(Seq<char>, V)>, key: Seq<char>) -> bool {
    exists|i: int| 0 <= i < entries.len() && #[trigger] entries[i].0 == key
}

/// An index at which `entries` has the name `key`, where there is one.
pub open spec fn index_of<V>(entries: Seq<(Seq<char>, V)>, key: Seq<char>) -> int {
    choose|i: int| 0 <= i < entries.len() && #[trigger] entries[i].0 == key
}

/// The map that a list of entries stands for.
pub open spec fn entries_map<V>(entries: Seq<(Seq<char>, V)>) -> Map<Seq<char>, V> {
    Map::new(|key: Seq<char>| has_key(entries, key), |key: Seq<char>| entries[index_of(entries, key)].1)
}

/// In a sorted list a name occurs at one index only.
pub proof fn lemma_sorted_index<V>(entries: Seq<(Seq<char>, V)>, i: int)
    requires
        strictly_sorted(entries),
        0 <= i < entries.len(),
    ensures
        has_key(entries, entries[i].0),
        index_of(entries, entries[i].0) == i,
        entries_map(entries)[entries[i].0] == entries[i].1,
{
    let key = entries[i].0;
    let j = index_of(entries, key);
    lemma_key_before_irreflexive(key);
    if j < i {
        assert(key_before(entries[j].0, entries[i].0));
    } else if i < j {
        assert(key_before(entries[i].0, entries[j].0));
    }
}

/// A list of entries with each name taken by its characters.
pub open spec fn listed<V>(entries: Seq<(String, V)>) -> Seq<(Seq<char>, V)> {
    Seq::new(entries.len(), |i: int| (entries[i].0@, entries[i].1))
}

/// A map keyed by property name. Its entries are kept sorted by name, so two
/// maps with the same content are the same list of entries.
#[derive(Debug, Hash)]
pub struct PropertyMap<V> {
    entries: Vec<(String, V)>,
}

impl<V> View for PropertyMap<V> {
    type V = Map<Seq<char>, V>;

    open spec fn view(&self) -> Map<Seq<char>, V> {
        entries_map(self.entries())
    }
}

impl<V> PropertyMap<V> {
    /// The entries in order, each name by its characters.
    pub closed spec fn entries(&self) -> Seq<(Seq<char>, V)> {
        listed(self.entries@)
    }

    #[verifier::type_invariant]
    pub closed spec fn sorted(&self) -> bool {
        strictly_sorted(self.entries())
    }

    /// The empty map.
    pub fn new() -> (map: Self)
        ensures
            map.entries() == Seq::<(Seq<char>, V)>::empty(),
            map@ == Map::<Seq<char>, V>::empty(),
    {
        let entries: Vec<(String, V)> = Vec::new();
        assert(listed(entries@) =~= Seq::<(Seq<char>, V)>::empty());
        let map = PropertyMap { entries };
        assert(map@ =~= Map::<Seq<char>, V>::empty());
        map
    }

    /// The number of entries, which stand in the order of their names.
    pub fn len(&self) -> (n: usize)
        ensures
            n == self.entries().len(),
            strictly_sorted(self.entries()),
    {
        proof {
            use_type_invariant(self);
        }
        self.entries.len()
    }

    /// Whether the map has no entry.
    pub fn is_empty(&self) -> (empty: bool)
        ensures
            empty == (self.entries().len() == 0),
    {
        self.entries.len() == 0
    }

    /// The name of the entry at place `i` in the order of names.
    pub fn key_at(&self, i: usize) -> (key: &String)
        requires
            i < self.entries().len(),
        ensures
            key@ == self.entries()[i as int].0,
    {
        &self.entries[i].0
    }

    /// The value of the entry at place `i` in the order of names.
    pub fn value_at(&self, i: usize) -> (value: &V)
        requires
            i < self.entries().len(),
        ensures
            *value == self.entries()[i as int].1,
    {
        &self.entries[i].1
    }

    /// The place of `key`: the number of entries whose name comes before it,
    /// and whether the entry at that place has this very name.
    fn search(&self, key: &str) -> (place: (usize, bool))
        ensures
            place.0 <= self.entries().len(),
            forall|i: int| 0 <= i < place.0 ==> key_before(#[trigger] self.entries()[i].0, key@),
            place.1 ==> place.0 < self.entries().len() && self.entries()[place.0 as int].0
                == key@,
            !place.1 ==> forall|i: int|
                place.0 <= i < self.entries().len() ==> key_before(
                    key@,
                    #[trigger] self.entries()[i].0,
                ),
    {
        proof {
            use_type_invariant(self);
        }
        let mut i: usize = 0;
        while i < self.entries.len()
            invariant
                i <= self.entries().len(),
                self.entries().len() == self.entries@.len(),
                strictly_sorted(self.entries()),
                forall|j: int| 0 <= j < i ==> key_before(#[trigger] self.entries()[j].0, key@),
            decreases self.entries.len() - i,
        {
            let order = compare_keys(self.entries[i].0.as_str(), key);
            assert(self.entries()[i as int].0 == self.entries@[i as int].0@);
            match order {
                KeyOrder::Before => {},
                KeyOrder::Same => {
                    return (i, true);
                },
                KeyOrder::After => {
                    assert forall|j: int| i <= j < self.entries().len() implies key_before(
                        key@,
                        #[trigger] self.entries()[j].0,
                    ) by {
                        if i < j {
                            assert(key_before(self.entries()[i as int].0, self.entries()[j].0));
                            lemma_key_before_transitive(
                                key@,
                                self.entries()[i as int].0,
                                self.entries()[j].0,
                            );
                        }
                    }
                    return (i, false);
                },
            }
            i += 1;
        }
        (i, false)
    }

    /// The value under `key`, if the map has that name.
    pub fn get(&self, key: &str) -> (value: Option<&V>)
        ensures
            match value {
                Some(v) => self@.contains_key(key@) && *v == self@[key@],
                None => !self@.contains_key(key@),
            },
    {
        proof {
            use_type_invariant(self);
        }
        let (i, found) = self.search(key);
        if found {
            proof {
                lemma_sorted_index(self.entries(), i as int);
            }
            Some(&self.entries[i].1)
        } else {
            proof {
                lemma_key_before_irreflexive(key@);
                if has_key(self.entries(), key@) {
                    let j = index_of(self.entries(), key@);
                    if j < i {
                        assert(key_before(self.entries()[j].0, key@));
                    } else {
                        assert(key_before(key@, self.entries()[j].0));
                    }
                }
            }
            None
        }
    }

    /// Whether the map has an entry under `key`.
    pub fn contains_key(&self, key: &str) -> (found: bool)
        ensures
            found == self@.contains_key(key@),
    {
        self.get(key).is_some()
    }

    /// Puts `value` under `key`. Returns the value that stood there before,
    /// if there was one.
    pub fn insert(&mut self, key: String, value: V) -> (previous: Option<V>)
        ensures
            final(self)@ == old(self)@.insert(key@, value),
            match previous {
                Some(v) => old(self)@.contains_key(key@) && v == old(self)@[key@],
                None => !old(self)@.contains_key(key@),
            },
            old(self)@.contains_key(key@) ==> final(self).entries() == old(self).entries().update(
                index_of(old(self).entries(), key@),
                (key@, value),
            ),
            !old(self)@.contains_key(key@) ==> final(self).entries().len() == old(
                self,
            ).entries().len() + 1,
    {
        proof {
            use_type_invariant(&*self);
        }
        let ghost before = self.entries();
        let (i, found) = self.search(key.as_str());
        let ghost at = i as int;
        let ghost item = (key@, value);
        let mut taken = PropertyMap::new();
        std::mem::swap(self, &mut taken);
        let mut entries = taken.entries;
        if found {
            proof {
                lemma_sorted_index(before, at);
                lemma_update_sorted(before, at, value);
                lemma_update_map(before, at, value);
            }
            let mut swapped = (key, value);
            std::mem::swap(&mut entries[i], &mut swapped);
            assert(listed(entries@) =~= before.update(at, item));
            *self = PropertyMap { entries };
            Some(swapped.1)
        } else {
            proof {
                lemma_insert_sorted(before, at, item);
                lemma_insert_map(before, at, item);
            }
            entries.insert(i, (key, value));
            assert(listed(entries@) =~= before.insert(at, item));
            *self = PropertyMap { entries };
            None
        }
    }
}

impl<V> Default for PropertyMap<V> {
    fn default() -> (map: Self)
        ensures
            map@ == Map::<Seq<char>, V>::empty(),
    {
        PropertyMap::new()
    }
}

/// Replacing the value at an index keeps the names in order.
pub proof fn lemma_update_sorted<V>(entries: Seq<(Seq<char>, V)>, at: int, value: V)
    requires
        strictly_sorted(entries),
        0 <= at < entries.len(),
    ensures
        strictly_sorted(entries.update(at, (entries[at].0, value))),
{
    let after = entries.update(at, (entries[at].0, value));
    assert forall|i: int, j: int| 0 <= i < j < after.len() implies key_before(
        #[trigger] after[i].0,
        #[trigger] after[j].0,
    ) by {
        assert(key_before(entries[i].0, entries[j].0));
    }
}

/// Replacing the value at an index is an insertion under that index's name.
pub proof fn lemma_update_map<V>(entries: Seq<(Seq<char>, V)>, at: int, value: V)
    requires
        strictly_sorted(entries),
        0 <= at < entries.len(),
    ensures
        entries_map(entries.update(at, (entries[at].0, value))) == entries_map(entries).insert(
            entries[at].0,
            value,
        ),
{
    let key = entries[at].0;
    let after = entries.update(at, (key, value));
    lemma_update_sorted(entries, at, value);
    assert forall|k: Seq<char>| has_key(after, k) == (has_key(entries, k) || k == key) by {
        if has_key(after, k) {
            let i = index_of(after, k);
            assert(entries[i].0 == k);
        }
        if has_key(entries, k) {
            let i = index_of(entries, k);
            assert(after[i].0 == k);
        }
        if k == key {
            assert(after[at].0 == k);
        }
    }
    assert forall|k: Seq<char>| has_key(after, k) implies #[trigger] entries_map(after)[k]
        == entries_map(entries).insert(key, value)[k] by {
        let i = index_of(after, k);
        lemma_sorted_index(after, i);
        if k != key {
            assert(i != at);
            assert(entries[i].0 == k);
            lemma_sorted_index(entries, i);
        } else {
            lemma_sorted_index(after, at);
        }
    }
    assert(entries_map(after) =~= entries_map(entries).insert(key, value));
}

/// A new name put at its place keeps the names in order.
pub proof fn lemma_insert_sorted<V>(entries: Seq<(Seq<char>, V)>, at: int, item: (Seq<char>, V))
    requires
        strictly_sorted(entries),
        0 <= at <= entries.len(),
        forall|i: int| 0 <= i < at ==> key_before(#[trigger] entries[i].0, item.0),
        forall|i: int| at <= i < entries.len() ==> key_before(item.0, #[trigger] entries[i].0),
    ensures
        strictly_sorted(entries.insert(at, item)),
{
    let after = entries.insert(at, item);
    assert forall|i: int, j: int| 0 <= i < j < after.len() implies key_before(
        #[trigger] after[i].0,
        #[trigger] after[j].0,
    ) by {
        if j < at {
            assert(key_before(entries[i].0, entries[j].0));
        } else if j == at {
            assert(key_before(entries[i].0, item.0));
        } else if i < at {
            assert(key_before(entries[i].0, entries[j - 1].0));
        } else if i == at {
            assert(key_before(item.0, entries[j - 1].0));
        } else {
            assert(key_before(entries[i - 1].0, entries[j - 1].0));
        }
    }
}

/// A new name put at its place is an insertion into the map.
pub proof fn lemma_insert_map<V>(entries: Seq<(Seq<char>, V)>, at: int, item: (Seq<char>, V))
    requires
        strictly_sorted(entries),
        0 <= at <= entries.len(),
        forall|i: int| 0 <= i < at ==> key_before(#[trigger] entries[i].0, item.0),
        forall|i: int| at <= i < entries.len() ==> key_before(item.0, #[trigger] entries[i].0),
    ensures
        !has_key(entries, item.0),
        entries_map(entries.insert(at, item)) == entries_map(entries).insert(item.0, item.1),
{
    let after = entries.insert(at, item);
    lemma_insert_sorted(entries, at, item);
    lemma_key_before_irreflexive(item.0);
    if has_key(entries, item.0) {
        let i = index_of(entries, item.0);
        if i < at {
            assert(key_before(entries[i].0, item.0));
        } else {
            assert(key_before(item.0, entries[i].0));
        }
    }
    assert forall|k: Seq<char>| has_key(after, k) == (has_key(entries, k) || k == item.0) by {
        if has_key(after, k) {
            let i = index_of(after, k);
            if i < at {
                assert(entries[i].0 == k);
            } else if i > at {
                assert(entries[i - 1].0 == k);
            }
        }
        if has_key(entries, k) {
            let i = index_of(entries, k);
            if i < at {
                assert(after[i].0 == k);
            } else {
                assert(after[i + 1].0 == k);
            }
        }
        if k == item.0 {
            assert(after[at].0 == k);
        }
    }
    assert forall|k: Seq<char>| has_key(after, k) implies #[trigger] entries_map(after)[k]
        == entries_map(entries).insert(item.0, item.1)[k] by {
        let i = index_of(after, k);
        lemma_sorted_index(after, i);
        if i < at {
            assert(entries[i].0 == k);
            lemma_sorted_index(entries, i);
        } else if i > at {
            assert(entries[i - 1].0 == k);
            lemma_sorted_index(entries, i - 1);
        }
    }
    assert(entries_map(after) =~= entries_map(entries).insert(item.0, item.1));
}

/// A sorted list without its last entry stands for the map without that
/// entry's name.
pub proof fn lemma_drop_last_map<V>(entries: Seq<(Seq<char>, V)>)
    requires
        strictly_sorted(entries),
        entries.len() > 0,
    ensures
        strictly_sorted(entries.drop_last()),
        entries_map(entries.drop_last()) == entries_map(entries).remove(entries.last().0),
{
    let rest = entries.drop_last();
    let last = entries.last();
    assert forall|i: int, j: int| 0 <= i < j < rest.len() implies key_before(
        #[trigger] rest[i].0,
        #[trigger] rest[j].0,
    ) by {
        assert(key_before(entries[i].0, entries[j].0));
    }
    lemma_key_before_irreflexive(last.0);
    assert forall|k: Seq<char>| has_key(rest, k) == (has_key(entries, k) && k != last.0) by {
        if has_key(rest, k) {
            let i = index_of(rest, k);
            assert(entries[i].0 == k);
            assert(key_before(entries[i].0, entries[entries.len() - 1].0));
        }
        if has_key(entries, k) && k != last.0 {
            let i = index_of(entries, k);
            assert(rest[i].0 == k);
        }
    }
    assert forall|k: Seq<char>| has_key(rest, k) implies #[trigger] entries_map(rest)[k]
        == entries_map(entries)[k] by {
        let i = index_of(rest, k);
        lemma_sorted_index(rest, i);
        assert(entries[i].0 == k);
        lemma_sorted_index(entries, i);
    }
    assert(entries_map(rest) =~= entries_map(entries).remove(last.0));
}

/// A map has one sorted list of entries only.
pub proof fn lemma_sorted_entries_unique<V>(a: Seq<(Seq<char>, V)>, b: Seq<(Seq<char>, V)>)
    requires
        strictly_sorted(a),
        strictly_sorted(b),
        entries_map(a) == entries_map(b),
    ensures
        a == b,
    decreases a.len(),
{
    if a.len() == 0 {
        if b.len() > 0 {
            assert(has_key(b, b[0].0));
            assert(entries_map(b).contains_key(b[0].0));
            assert(has_key(a, b[0].0));
        }
        assert(a =~= b);
    } else {
        let x = a.last();
        assert(has_key(a, a[a.len() - 1].0));
        assert(entries_map(a).contains_key(x.0));
        assert(has_key(b, x.0));
        let y = b.last();
        assert(has_key(b, b[b.len() - 1].0));
        assert(entries_map(b).contains_key(y.0));
        assert(has_key(a, y.0));
        let j = index_of(b, x.0);
        let i = index_of(a, y.0);
        if j < b.len() - 1 && i < a.len() - 1 {
            assert(key_before(b[j].0, b[b.len() - 1].0));
            assert(key_before(a[i].0, a[a.len() - 1].0));
            lemma_key_before_transitive(x.0, y.0, x.0);
            lemma_key_before_irreflexive(x.0);
        }
        assert(x.0 == y.0);
        lemma_sorted_index(a, a.len() - 1);
        lemma_sorted_index(b, b.len() - 1);
        assert(x.1 == y.1);
        lemma_drop_last_map(a);
        lemma_drop_last_map(b);
        lemma_sorted_entries_unique(a.drop_last(), b.drop_last());
        assert(a =~= a.drop_last().push(x));
        assert(b =~= b.drop_last().push(y));
    }
}

/// The entries of a map in the order of their names.
pub open spec fn sorted_entries<V>(map: Map<Seq<char>, V>) -> Seq<(Seq<char>, V)> {
    choose|entries: Seq<(Seq<char>, V)>| strictly_sorted(entries) && entries_map(entries) == map
}

/// A sorted list of entries is the list of the entries of its map.
pub proof fn lemma_sorted_entries<V>(entries: Seq<(Seq<char>, V)>)
    requires
        strictly_sorted(entries),
    ensures
        sorted_entries(entries_map(entries)) == entries,
{
    lemma_sorted_entries_unique(sorted_entries(entries_map(entries)), entries);
}

/// A map with each value taken by its model.
pub open spec fn map_models<V: View>(map: Map<Seq<char>, V>) -> Map<Seq<char>, V::V> {
    map.map_values(|value: V| value@)
}

/// A list of entries with each value taken by its model.
pub open spec fn entry_models<V: View>(entries: Seq<(Seq<char>, V)>) -> Seq<(Seq<char>, V::V)> {
    Seq::new(entries.len(), |i: int| (entries[i].0, entries[i].1@))
}

/// Taking the models of the values keeps the order and goes with the map.
pub proof fn lemma_entry_models<V: View>(entries: Seq<(Seq<char>, V)>)
    requires
        strictly_sorted(entries),
    ensures
        strictly_sorted(entry_models(entries)),
        entries_map(entry_models(entries)) == map_models(entries_map(entries)),
{
    let shown = entry_models(entries);
    assert forall|i: int, j: int| 0 <= i < j < shown.len() implies key_before(
        #[trigger] shown[i].0,
        #[trigger] shown[j].0,
    ) by {
        assert(key_before(entries[i].0, entries[j].0));
    }
    assert forall|k: Seq<char>| has_key(shown, k) == has_key(entries, k) by {
        if has_key(shown, k) {
            let i = index_of(shown, k);
            assert(entries[i].0 == k);
        }
        if has_key(entries, k) {
            let i = index_of(entries, k);
            assert(shown[i].0 == k);
        }
    }
    assert forall|k: Seq<char>| has_key(shown, k) implies #[trigger] entries_map(shown)[k]
        == map_models(entries_map(entries))[k] by {
        let i = index_of(shown, k);
        lemma_sorted_index(shown, i);
        assert(entries[i].0 == k);
        lemma_sorted_index(entries, i);
    }
    assert(entries_map(shown) =~= map_models(entries_map(entries)));
}

/// The JSON form of a map: the object with one member for each entry, in the
/// order of the names.
pub open spec fn map_encoding<T: JsonCodec>(map: Map<Seq<char>, T::V>) -> JsonModel {
    let entries = sorted_entries(map);
    JsonModel::Object(Seq::new(entries.len(), |i: int| (entries[i].0, T::encoding(entries[i].1))))
}

/// The map that a list of members stands for: each member is an entry, and a
/// later member replaces an earlier one of the same name. `None` where a
/// member has not the shape of a `T`.
pub open spec fn members_map<T: JsonCodec>(members: Seq<(Seq<char>, JsonModel)>) -> Option<
    Map<Seq<char>, T::V>,
>
    decreases members.len(),
{
    if members.len() == 0 {
        Some(Map::empty())
    } else {
        match (members_map::<T>(members.drop_last()), T::decoding(members.last().1)) {
            (Some(map), Some(value)) => Some(map.insert(members.last().0, value)),
            _ => None,
        }
    }
}

/// The map that a JSON value stands for: it is an object, and each member
/// has the shape of a `T`.
pub open spec fn map_decoding<T: JsonCodec>(json: JsonModel) -> Option<Map<Seq<char>, T::V>> {
    match json {
        JsonModel::Object(members) => members_map::<T>(members),
        _ => None,
    }
}

/// What the members of an object hold, in order.
pub open spec fn member_values(members: Seq<(Seq<char>, JsonModel)>) -> Seq<JsonModel> {
    Seq::new(members.len(), |i: int| members[i].1)
}

/// The words with which a JSON value is refused as a map of `T`: it is no
/// object, or the first member that has not the shape of a `T` is refused.
pub open spec fn map_refusal<T: JsonCodec>(json: JsonModel) -> Seq<char> {
    match json {
        JsonModel::Object(members) => {
            let at = first_refused::<T>(member_values(members));
            under(members[at].0, T::refusal(members[at].1))
        },
        _ => "not an object"@,
    }
}

/// One member that has not the shape of a `T` spoils the whole list.
pub proof fn lemma_members_map_fails<T: JsonCodec>(members: Seq<(Seq<char>, JsonModel)>, at: int)
    requires
        0 <= at < members.len(),
        T::decoding(members[at].1) is None,
    ensures
        members_map::<T>(members) is None,
    decreases members.len(),
{
    if at < members.len() - 1 {
        lemma_members_map_fails::<T>(members.drop_last(), at);
    }
}

/// Writes a map as a JSON object.
pub fn encode_map<T: JsonCodec>(map: &PropertyMap<T>) -> (json: Json)
    ensures
        json@ == map_encoding::<T>(map_models(map@)),
{
    let n = map.len();
    let ghost shown = entry_models(map.entries());
    proof {
        lemma_entry_models(map.entries());
        lemma_sorted_entries(shown);
    }
    let mut members: Vec<(String, Json)> = Vec::new();
    let mut i: usize = 0;
    while i < n
        invariant
            i <= n,
            n == map.entries().len(),
            shown == entry_models(map.entries()),
            members@.len() == i,
            forall|j: int|
                0 <= j < i ==> (#[trigger] members_view(members@)[j]) == (
                    shown[j].0,
                    T::encoding(shown[j].1),
                ),
        decreases n - i,
    {
        let ghost before = members_view(members@);
        push_member(&mut members, map.key_at(i).as_str(), map.value_at(i).to_json());
        assert(members_view(members@).len() == before.len() + 1);
        assert forall|j: int| 0 <= j < i + 1 implies (#[trigger] members_view(members@)[j]) == (
            shown[j].0,
            T::encoding(shown[j].1),
        ) by {
            if j < i {
                assert(members_view(members@)[j] == before[j]);
            }
        }
        i += 1;
    }
    let json = Json::object(members);
    assert(json@->Object_0 =~= map_encoding::<T>(map_models(map@))->Object_0);
    json
}

/// Reads a map from a JSON object. Fails where the value is no object, or a
/// member has not the shape of a `T`.
pub fn decode_map<T: JsonCodec>(json: &Json) -> (map: Result<PropertyMap<T>, DecodeError>)
    ensures
        match map {
            Ok(m) => map_decoding::<T>(json@) == Some(map_models(m@)),
            Err(e) => map_decoding::<T>(json@) is None && e@ == map_refusal::<T>(json@),
        },
{
    match json.as_object() {
        None => Err(DecodeError::new("not an object")),
        Some(members) => {
            let ghost all = members_view(members@);
            let mut map: PropertyMap<T> = PropertyMap::new();
            let mut i: usize = 0;
            assert(map_models(map@) =~= Map::<Seq<char>, T::V>::empty());
            assert(all.take(0).len() == 0);
            while i < members.len()
                invariant
                    i <= members.len(),
                    all == members_view(members@),
                    json@ == JsonModel::Object(all),
                    members_map::<T>(all.take(i as int)) == Some(map_models(map@)),
                    forall|j: int|
                        0 <= j < i ==> (#[trigger] T::decoding(member_values(all)[j])) is Some,
                decreases members.len() - i,
            {
                assert(all[i as int] == (members@[i as int].0@, members@[i as int].1@));
                assert(all.take(i + 1).drop_last() =~= all.take(i as int));
                assert(all.take(i + 1).last() == all[i as int]);
                match T::from_json(&members[i].1) {
                    Ok(value) => {
                        let ghost before = map@;
                        map.insert(members[i].0.clone(), value);
                        assert(map_models(map@) =~= map_models(before).insert(
                            members@[i as int].0@,
                            value@,
                        ));
                    },
                    Err(e) => {
                        proof {
                            lemma_members_map_fails::<T>(all, i as int);
                            lemma_first_refused::<T>(member_values(all), i as int);
                        }
                        return Err(e.under(members[i].0.as_str()));
                    },
                }
                i += 1;
            }
            assert(all.take(i as int) =~= all);
            Ok(map)
        },
    }
}

} // verus!
