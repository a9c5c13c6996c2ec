//! A small map from strings to strings that keeps its entries in the order in
//! which their keys were first inserted.

use crate::text::strings;
use vstd::prelude::*;
use vstd::string::*;

verus! {

/// A map from strings to strings.
#[derive(Debug)]
pub struct StringMap {
    entries: Vec<(String, String)>,
}

/// The keys and values of a list of entries, each as its characters.
spec fn pairs(entries: Seq<(String, String)>) -> Seq<(Seq<char>, Seq<char>)> {
    entries.map_values(|e: (String, String)| (e.0@, e.1@))
}

/// No two entries of the list have the same key.
spec fn distinct_keys(list: Seq<(Seq<char>, Seq<char>)>) -> bool {
    forall|i: int, j: int| 0 <= i < j < list.len() ==> (#[trigger] list[i]).0 != (#[trigger] list[j]).0
}

/// Whether the list has an entry for `key`.
spec fn has_key(list: Seq<(Seq<char>, Seq<char>)>, key: Seq<char>) -> bool {
    exists|i: int| 0 <= i < list.len() && (#[trigger] list[i]).0 == key
}

/// The map that a list of entries with distinct keys stands for.
spec fn map_of(list: Seq<(Seq<char>, Seq<char>)>) -> Map<Seq<char>, Seq<char>> {
    Map::new(
        |key: Seq<char>| has_key(list, key),
        |key: Seq<char>| list[choose|i: int| 0 <= i < list.len() && (#[trigger] list[i]).0 == key].1,
    )
}

/// In a list with distinct keys, the entry at index `i` is what the map holds
/// for that entry's key.
proof fn lemma_map_of_entry(list: Seq<(Seq<char>, Seq<char>)>, i: int)
    requires
        distinct_keys(list),
        0 <= i < list.len(),
    ensures
        map_of(list).contains_key(list[i].0),
        map_of(list)[list[i].0] == list[i].1,
{
    let key = list[i].0;
    let k = choose|k: int| 0 <= k < list.len() && (#[trigger] list[k]).0 == key;
    assert(k == i);
}

/// Appending an entry with a new key inserts it into the map.
proof fn lemma_map_of_push(list: Seq<(Seq<char>, Seq<char>)>, key: Seq<char>, value: Seq<char>)
    requires
        distinct_keys(list),
        !has_key(list, key),
    ensures
        distinct_keys(list.push((key, value))),
        map_of(list.push((key, value))) == map_of(list).insert(key, value),
{
    let longer = list.push((key, value));
    assert forall|i: int, j: int| 0 <= i < j < longer.len() implies (#[trigger] longer[i]).0 != (
    #[trigger] longer[j]).0 by {
        assert(longer[i] == list[i]);
        if j < list.len() {
            assert(longer[j] == list[j]);
        }
    }
    assert forall|k: Seq<char>| map_of(longer).contains_key(k) <==> map_of(list).insert(
        key,
        value,
    ).contains_key(k) by {
        if has_key(longer, k) {
            let i = choose|i: int| 0 <= i < longer.len() && (#[trigger] longer[i]).0 == k;
            if i < list.len() {
                assert(list[i].0 == k);
            }
        }
        if has_key(list, k) {
            let i = choose|i: int| 0 <= i < list.len() && (#[trigger] list[i]).0 == k;
            assert(longer[i].0 == k);
        }
        if k == key {
            assert(longer[list.len() as int].0 == k);
        }
    }
    assert forall|k: Seq<char>| map_of(longer).contains_key(k) implies map_of(longer)[k] == map_of(
        list,
    ).insert(key, value)[k] by {
        let i = choose|i: int| 0 <= i < longer.len() && (#[trigger] longer[i]).0 == k;
        lemma_map_of_entry(longer, i);
        if i < list.len() {
            assert(list[i] == longer[i]);
            lemma_map_of_entry(list, i);
        }
    }
    assert(map_of(longer) =~= map_of(list).insert(key, value));
}

/// Replacing the value of the entry at index `i` replaces it in the map.
proof fn lemma_map_of_update(list: Seq<(Seq<char>, Seq<char>)>, i: int, value: Seq<char>)
    requires
        distinct_keys(list),
        0 <= i < list.len(),
    ensures
        distinct_keys(list.update(i, (list[i].0, value))),
        map_of(list.update(i, (list[i].0, value))) == map_of(list).insert(list[i].0, value),
{
    let key = list[i].0;
    let changed = list.update(i, (key, value));
    assert forall|a: int, b: int| 0 <= a < b < changed.len() implies (#[trigger] changed[a]).0 != (
    #[trigger] changed[b]).0 by {
        assert(changed[a].0 == list[a].0);
        assert(changed[b].0 == list[b].0);
    }
    assert forall|k: Seq<char>| map_of(changed).contains_key(k) <==> map_of(list).insert(
        key,
        value,
    ).contains_key(k) by {
        if has_key(changed, k) {
            let j = choose|j: int| 0 <= j < changed.len() && (#[trigger] changed[j]).0 == k;
            assert(list[j].0 == k);
        }
        if has_key(list, k) {
            let j = choose|j: int| 0 <= j < list.len() && (#[trigger] list[j]).0 == k;
            assert(changed[j].0 == k);
        }
        if k == key {
            assert(changed[i].0 == k);
        }
    }
    assert forall|k: Seq<char>| map_of(changed).contains_key(k) implies map_of(changed)[k]
        == map_of(list).insert(key, value)[k] by {
        let j = choose|j: int| 0 <= j < changed.len() && (#[trigger] changed[j]).0 == k;
        lemma_map_of_entry(changed, j);
        if j != i {
            assert(list[j] == changed[j]);
            lemma_map_of_entry(list, j);
        }
    }
    assert(map_of(changed) =~= map_of(list).insert(key, value));
}

impl View for StringMap {
    type V = Map<Seq<char>, Seq<char>>;

    closed spec fn view(&self) -> Map<Seq<char>, Seq<char>> {
        map_of(pairs(self.entries@))
    }
}

impl StringMap {
    #[verifier::type_invariant]
    spec fn keys_are_distinct(self) -> bool {
        distinct_keys(pairs(self.entries@))
    }

    /// The keys of the map in the order in which they were first inserted.
    pub closed spec fn key_order(self) -> Seq<Seq<char>> {
        self.entries@.map_values(|e: (String, String)| e.0@)
    }

    /// The map without entries.
    pub fn new() -> (map: StringMap)
        ensures
            map@ == Map::<Seq<char>, Seq<char>>::empty(),
            map.key_order() == Seq::<Seq<char>>::empty(),
    {
        let map = StringMap { entries: Vec::new() };
        assert(map@ =~= Map::<Seq<char>, Seq<char>>::empty());
        assert(map.key_order() =~= Seq::<Seq<char>>::empty());
        map
    }

    /// The index of the entry for `key`, if there is one.
    fn position(&self, key: &String) -> (found: Option<usize>)
        ensures
            match found {
                Some(i) => i < self.entries@.len() && self.entries@[i as int].0@ == key@,
                None => !has_key(pairs(self.entries@), key@),
            },
    {
        let mut i: usize = 0;
        while i < self.entries.len()
            invariant
                i <= self.entries.len(),
                forall|k: int| 0 <= k < i ==> (#[trigger] pairs(self.entries@)[k]).0 != key@,
            decreases self.entries.len() - i,
        {
            if self.entries[i].0 == *key {
                return Some(i);
            }
            i += 1;
        }
        None
    }

    /// The value stored for `key`, if there is one.
    pub fn get(&self, key: &str) -> (value: Option<&String>)
        ensures
            match value {
                Some(v) => self@.contains_key(key@) && v@ == self@[key@],
                None => !self@.contains_key(key@),
            },
    {
        proof {
            use_type_invariant(self);
        }
        let wanted = String::from_str(key);
        match self.position(&wanted) {
            Some(i) => {
                proof {
                    lemma_map_of_entry(pairs(self.entries@), i as int);
                }
                Some(&self.entries[i].1)
            },
            None => None,
        }
    }

    /// Stores `value` for `key`, in place of the value that was stored for it
    /// if there was one.
    pub fn insert(&mut self, key: String, value: String)
        ensures
            final(self)@ == old(self)@.insert(key@, value@),
            final(self).key_order() == if old(self)@.contains_key(key@) {
                old(self).key_order()
            } else {
                old(self).key_order().push(key@)
            },
    {
        proof {
            use_type_invariant(&*self);
        }
        let ghost before = pairs(self.entries@);
        let ghost old_order = self.key_order();
        let found = self.position(&key);
        let mut entries: Vec<(String, String)> = Vec::new();
        std::mem::swap(&mut entries, &mut self.entries);
        match found {
            Some(i) => {
                proof {
                    lemma_map_of_update(before, i as int, value@);
                    lemma_map_of_entry(before, i as int);
                }
                let held = entries.remove(i);
                entries.insert(i, (held.0, value));
                assert(pairs(entries@) =~= before.update(i as int, (key@, value@)));
                assert(entries@.map_values(|e: (String, String)| e.0@) =~= old_order);
            },
            None => {
                proof {
                    lemma_map_of_push(before, key@, value@);
                }
                entries.push((key, value));
                assert(pairs(entries@) =~= before.push((key@, value@)));
                assert(entries@.map_values(|e: (String, String)| e.0@) =~= old_order.push(key@));
            },
        }
        self.entries = entries;
    }

    /// The keys of the map, in the order in which they were first inserted.
    pub fn keys(&self) -> (keys: Vec<String>)
        ensures
            strings(keys@) == self.key_order(),
            self.key_order().no_duplicates(),
            forall|k: Seq<char>| #[trigger] self.key_order().contains(k) <==> self@.contains_key(k),
    {
        proof {
            use_type_invariant(self);
            self.lemma_key_order();
        }
        let mut keys: Vec<String> = Vec::new();
        let mut i: usize = 0;
        while i < self.entries.len()
            invariant
                i <= self.entries.len(),
                strings(keys@) == self.key_order().take(i as int),
            decreases self.entries.len() - i,
        {
            let ghost before = strings(keys@);
            let key = self.entries[i].0.clone();
            keys.push(key);
            assert(strings(keys@) =~= before.push(key@));
            assert(self.key_order().take(i + 1) =~= self.key_order().take(i as int).push(key@));
            i += 1;
        }
        assert(self.key_order().take(self.entries@.len() as int) =~= self.key_order());
        keys
    }

    /// The keys in insertion order are the map's keys, each once.
    proof fn lemma_key_order(self)
        requires
            distinct_keys(pairs(self.entries@)),
        ensures
            self.key_order().no_duplicates(),
            forall|k: Seq<char>| #[trigger] self.key_order().contains(k) <==> self@.contains_key(k),
    {
        let list = pairs(self.entries@);
        let order = self.key_order();
        assert forall|i: int, j: int| 0 <= i < order.len() && 0 <= j < order.len() && i != j implies order[i]
            != order[j] by {
            assert(order[i] == list[i].0 && order[j] == list[j].0);
        }
        assert forall|k: Seq<char>| #[trigger] order.contains(k) <==> self@.contains_key(k) by {
            if order.contains(k) {
                let i = choose|i: int| 0 <= i < order.len() && order[i] == k;
                assert(list[i].0 == k);
            }
            if has_key(list, k) {
                let i = choose|i: int| 0 <= i < list.len() && (#[trigger] list[i]).0 == k;
                assert(order[i] == k);
            }
        }
    }
}

impl Clone for StringMap {
    fn clone(&self) -> (copy: Self)
        ensures
            copy@ == self@,
            copy.key_order() == self.key_order(),
    {
        proof {
            use_type_invariant(self);
        }
        let mut entries: Vec<(String, String)> = Vec::new();
        let mut i: usize = 0;
        while i < self.entries.len()
            invariant
                i <= self.entries.len(),
                pairs(entries@) == pairs(self.entries@).take(i as int),
            decreases self.entries.len() - i,
        {
            let ghost before = pairs(entries@);
            let key = self.entries[i].0.clone();
            let value = self.entries[i].1.clone();
            entries.push((key, value));
            assert(pairs(entries@) =~= before.push((key@, value@)));
            assert(pairs(self.entries@).take(i + 1) =~= pairs(self.entries@).take(i as int).push(
                (key@, value@),
            ));
            i += 1;
        }
        assert(pairs(self.entries@).take(self.entries@.len() as int) =~= pairs(self.entries@));
        let copy = StringMap { entries };
        assert(copy.key_order() =~= self.key_order()) by {
            assert forall|k: int| 0 <= k < self.entries@.len() implies copy.key_order()[k]
                == self.key_order()[k] by {
                assert(pairs(copy.entries@)[k] == pairs(self.entries@)[k]);
            }
        }
        copy
    }
}

} // verus!
