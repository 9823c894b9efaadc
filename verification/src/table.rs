//! A small map that keeps its keys in insertion order.
use vstd::prelude::*;

use crate::net::SocketAddr;
use crate::session::SessionToken;

verus! {

/// A key that can be compared.
pub trait Key: Copy {
    /// Whether the two keys are the same value.
    fn same(&self, other: &Self) -> (r: bool)
        ensures
            r == (*self == *other),
    ;
}

impl Key for SessionToken {
    fn same(&self, other: &Self) -> (r: bool) {
        *self == *other
    }
}

impl Key for SocketAddr {
    fn same(&self, other: &Self) -> (r: bool) {
        *self == *other
    }
}

impl Key for i32 {
    fn same(&self, other: &Self) -> (r: bool) {
        *self == *other
    }
}

/// Entries by key, each key at most once, oldest first.
#[derive(Debug)]
pub struct Table<K, V> {
    pub items: Vec<(K, V)>,
}

/// Where `key` stands in `items`, or the number of items.
pub open spec fn slot_of<K, V>(items: Seq<(K, V)>, key: K) -> int
    decreases items.len(),
{
    if items.len() == 0 {
        0
    } else if items[0].0 == key {
        0
    } else {
        1 + slot_of(items.drop_first(), key)
    }
}

/// What `items` map each key to.
pub open spec fn as_map<K, V>(items: Seq<(K, V)>) -> Map<K, V> {
    Map::new(
        |k: K| slot_of(items, k) < items.len(),
        |k: K| items[slot_of(items, k)].1,
    )
}

/// No key occurs twice.
pub open spec fn distinct<K, V>(items: Seq<(K, V)>) -> bool {
    forall|i: int, j: int|
        0 <= i < j < items.len() ==> (#[trigger] items[i]).0 != (#[trigger] items[j]).0
}

impl<K, V> View for Table<K, V> {
    type V = Map<K, V>;

    open spec fn view(&self) -> Map<K, V> {
        as_map(self.items@)
    }
}

/// The slot of a key is where it stands first.
pub proof fn slot_is<K, V>(items: Seq<(K, V)>, key: K, i: int)
    requires
        0 <= i < items.len(),
        items[i].0 == key,
        forall|j: int| 0 <= j < i ==> (#[trigger] items[j]).0 != key,
    ensures
        slot_of(items, key) == i,
    decreases items.len(),
{
    if i > 0 {
        assert(items[0].0 != key);
        let rest = items.drop_first();
        assert forall|j: int| 0 <= j < i - 1 implies (#[trigger] rest[j]).0 != key by {
            assert(rest[j] == items[j + 1]);
        }
        slot_is(rest, key, i - 1);
    }
}

/// A key stands at its slot, or nowhere.
pub proof fn slot_finds<K, V>(items: Seq<(K, V)>, key: K)
    ensures
        0 <= slot_of(items, key) <= items.len(),
        slot_of(items, key) < items.len() ==> items[slot_of(items, key)].0 == key,
        forall|j: int| 0 <= j < slot_of(items, key) ==> (#[trigger] items[j]).0 != key,
    decreases items.len(),
{
    if items.len() > 0 && items[0].0 != key {
        let rest = items.drop_first();
        slot_finds(rest, key);
        assert forall|j: int| 0 <= j < slot_of(items, key) implies (#[trigger] items[j]).0
            != key by {
            if j > 0 {
                assert(rest[j - 1] == items[j]);
            }
        }
    }
}

/// Each item of a table with distinct keys is what its key maps to.
pub proof fn item_is_mapped<K, V>(items: Seq<(K, V)>, i: int)
    requires
        distinct(items),
        0 <= i < items.len(),
    ensures
        as_map(items).contains_key(items[i].0),
        as_map(items)[items[i].0] == items[i].1,
{
    slot_is(items, items[i].0, i);
}

/// A table without items maps nothing.
pub proof fn empty_table<K, V>(items: Seq<(K, V)>)
    requires
        items.len() == 0,
    ensures
        as_map(items) == Map::<K, V>::empty(),
{
    assert(as_map(items) =~= Map::<K, V>::empty());
}

/// As many keys are mapped as there are items.
pub proof fn keys_counted<K, V>(items: Seq<(K, V)>)
    requires
        distinct(items),
    ensures
        as_map(items).dom().finite(),
        as_map(items).dom().len() == items.len(),
{
    let keys = items.map_values(|item: (K, V)| item.0);
    assert(keys.no_duplicates()) by {
        assert forall|i: int, j: int|
            0 <= i < keys.len() && 0 <= j < keys.len() && i != j implies keys[i] != keys[j] by {
            if i < j {
                assert(items[i].0 != items[j].0);
            } else {
                assert(items[j].0 != items[i].0);
            }
        }
    }
    keys.unique_seq_to_set();
    vstd::seq_lib::seq_to_set_is_finite(keys);
    assert forall|k: K| #[trigger] keys.to_set().contains(k) <==> as_map(items).dom().contains(
        k,
    ) by {
        slot_finds(items, k);
        if keys.contains(k) {
            let i = keys.index_of(k);
            assert(keys[i] == k);
            item_is_mapped(items, i);
        }
        if as_map(items).dom().contains(k) {
            assert(keys[slot_of(items, k)] == k);
        }
    }
    assert(keys.to_set() =~= as_map(items).dom());
}

/// One more key at the end.
proof fn map_of_push<K, V>(items: Seq<(K, V)>, key: K, value: V)
    requires
        distinct(items),
        !as_map(items).contains_key(key),
    ensures
        distinct(items.push((key, value))),
        as_map(items.push((key, value))) == as_map(items).insert(key, value),
{
    let next = items.push((key, value));
    slot_finds(items, key);
    assert forall|k: K| #[trigger] as_map(next).contains_key(k) <==> as_map(items).insert(
        key,
        value,
    ).contains_key(k) by {
        slot_finds(items, k);
        slot_finds(next, k);
        if slot_of(items, k) < items.len() {
            slot_is(next, k, slot_of(items, k));
        } else if slot_of(next, k) < next.len() {
            assert(next[slot_of(next, k)].0 == k);
            if slot_of(next, k) < items.len() {
                assert(items[slot_of(next, k)].0 == k);
            }
        }
        if k == key {
            slot_is(next, k, items.len() as int);
        }
    }
    assert forall|k: K| #[trigger] as_map(next).contains_key(k) implies as_map(next)[k] == as_map(
        items,
    ).insert(key, value)[k] by {
        slot_finds(items, k);
        slot_finds(next, k);
        if k == key {
            slot_is(next, k, items.len() as int);
        } else {
            slot_is(next, k, slot_of(items, k));
        }
    }
    assert(as_map(next) =~= as_map(items).insert(key, value));
}

/// One key less.
pub proof fn map_of_remove<K, V>(items: Seq<(K, V)>, i: int)
    requires
        distinct(items),
        0 <= i < items.len(),
    ensures
        distinct(items.remove(i)),
        as_map(items.remove(i)) == as_map(items).remove(items[i].0),
{
    let next = items.remove(i);
    let key = items[i].0;
    assert forall|a: int, b: int| 0 <= a < b < next.len() implies (#[trigger] next[a]).0 != (
    #[trigger] next[b]).0 by {
        let x = if a < i {
            a
        } else {
            a + 1
        };
        let y = if b < i {
            b
        } else {
            b + 1
        };
        assert(items[x].0 != items[y].0);
    }
    slot_is(items, key, i);
    assert forall|k: K| #[trigger] as_map(next).contains_key(k) <==> as_map(items).remove(
        key,
    ).contains_key(k) by {
        slot_finds(items, k);
        slot_finds(next, k);
        if as_map(next).contains_key(k) {
            let a = slot_of(next, k);
            let x = if a < i {
                a
            } else {
                a + 1
            };
            assert(items[x] == next[a]);
            item_is_mapped(items, x);
            if k == key {
                if x < i {
                    assert(items[x].0 != items[i].0);
                } else {
                    assert(items[i].0 != items[x].0);
                }
            }
        }
        if as_map(items).remove(key).contains_key(k) {
            let x = slot_of(items, k);
            let a = if x < i {
                x
            } else {
                x - 1
            };
            assert(next[a] == items[x]);
            item_is_mapped(next, a);
        }
    }
    assert forall|k: K| #[trigger] as_map(next).contains_key(k) implies as_map(next)[k] == as_map(
        items,
    ).remove(key)[k] by {
        slot_finds(next, k);
        let a = slot_of(next, k);
        let x = if a < i {
            a
        } else {
            a + 1
        };
        assert(items[x] == next[a]);
        item_is_mapped(items, x);
    }
    assert(as_map(next) =~= as_map(items).remove(key));
}

/// Another value under a key that is there.
proof fn map_of_update<K, V>(items: Seq<(K, V)>, i: int, value: V)
    requires
        distinct(items),
        0 <= i < items.len(),
    ensures
        distinct(items.update(i, (items[i].0, value))),
        as_map(items.update(i, (items[i].0, value))) == as_map(items).insert(items[i].0, value),
{
    let key = items[i].0;
    let next = items.update(i, (key, value));
    assert forall|a: int, b: int| 0 <= a < b < next.len() implies (#[trigger] next[a]).0 != (
    #[trigger] next[b]).0 by {
        assert(items[a].0 != items[b].0);
    }
    slot_is(items, key, i);
    slot_is(next, key, i);
    assert forall|k: K| #[trigger] slot_of(next, k) == slot_of(items, k) by {
        slot_finds(items, k);
        slot_finds(next, k);
        if slot_of(items, k) < items.len() {
            assert(next[slot_of(items, k)].0 == k);
            item_is_mapped(next, slot_of(items, k));
            slot_is(next, k, slot_of(items, k));
        } else if slot_of(next, k) < next.len() {
            assert(items[slot_of(next, k)].0 == k);
        }
    }
    assert forall|k: K| #[trigger] as_map(next).contains_key(k) <==> as_map(items).insert(
        key,
        value,
    ).contains_key(k) by {
        assert(slot_of(next, k) == slot_of(items, k));
    }
    assert forall|k: K| #[trigger] as_map(next).contains_key(k) implies as_map(next)[k] == as_map(
        items,
    ).insert(key, value)[k] by {
        assert(slot_of(next, k) == slot_of(items, k));
        slot_finds(items, k);
    }
    assert(as_map(next) =~= as_map(items).insert(key, value));
}

impl<K: Key, V> Table<K, V> {
    pub open spec fn wf(self) -> bool {
        distinct(self.items@)
    }

    pub fn new() -> (r: Self)
        ensures
            r.wf(),
            r@ == Map::<K, V>::empty(),
            r.items@.len() == 0,
    {
        let r = Table { items: Vec::new() };
        assert(as_map(r.items@) =~= Map::<K, V>::empty());
        r
    }

    /// Where `key` stands.
    pub fn find(&self, key: &K) -> (r: Option<usize>)
        requires
            self.wf(),
        ensures
            r is Some <==> self@.contains_key(*key),
            r matches Some(i) ==> i < self.items@.len() && self.items@[i as int].0 == *key
                && self.items@[i as int].1 == self@[*key],
    {
        let mut i: usize = 0;
        while i < self.items.len()
            invariant
                i <= self.items.len(),
                self.wf(),
                forall|j: int| 0 <= j < i ==> (#[trigger] self.items@[j]).0 != *key,
            decreases self.items.len() - i,
        {
            if self.items[i].0.same(key) {
                proof {
                    slot_is(self.items@, *key, i as int);
                }
                return Some(i);
            }
            i = i + 1;
        }
        proof {
            slot_finds(self.items@, *key);
        }
        None
    }

    pub fn contains_key(&self, key: &K) -> (r: bool)
        requires
            self.wf(),
        ensures
            r == self@.contains_key(*key),
    {
        self.find(key).is_some()
    }

    pub fn get(&self, key: &K) -> (r: Option<&V>)
        requires
            self.wf(),
        ensures
            r is Some <==> self@.contains_key(*key),
            r matches Some(v) ==> *v == self@[*key],
    {
        match self.find(key) {
            Some(i) => Some(&self.items[i].1),
            None => None,
        }
    }

    /// Put `value` under `key`, and return what was there.
    pub fn insert(&mut self, key: K, value: V) -> (r: Option<V>)
        requires
            old(self).wf(),
        ensures
            final(self).wf(),
            final(self)@ == old(self)@.insert(key, value),
            r is Some <==> old(self)@.contains_key(key),
            r matches Some(v) ==> v == old(self)@[key],
            final(self).items@.len() == old(self).items@.len() + if r is Some {
                0int
            } else {
                1
            },
    {
        match self.find(&key) {
            Some(i) => {
                let was = self.items.remove(i);
                self.items.insert(i, (key, value));
                proof {
                    let items = old(self).items@;
                    assert(self.items@ =~= items.update(i as int, (items[i as int].0, value)));
                    map_of_update(items, i as int, value);
                }
                Some(was.1)
            },
            None => {
                self.items.push((key, value));
                proof {
                    map_of_push(old(self).items@, key, value);
                }
                None
            },
        }
    }

    /// Take out what is under `key`.
    pub fn remove(&mut self, key: &K) -> (r: Option<V>)
        requires
            old(self).wf(),
        ensures
            final(self).wf(),
            final(self)@ == old(self)@.remove(*key),
            r is Some <==> old(self)@.contains_key(*key),
            r matches Some(v) ==> v == old(self)@[*key],
            r is None ==> *final(self) == *old(self),
            final(self).items@.len() == old(self).items@.len() - if r is Some {
                1int
            } else {
                0
            },
    {
        match self.find(key) {
            Some(i) => {
                let was = self.items.remove(i);
                proof {
                    map_of_remove(old(self).items@, i as int);
                }
                Some(was.1)
            },
            None => {
                assert(self@ =~= self@.remove(*key));
                None
            },
        }
    }

    /// The oldest key.
    pub fn first(&self) -> (r: Option<K>)
        requires
            self.wf(),
        ensures
            r is None <==> self.items@.len() == 0,
            r matches Some(k) ==> self@.contains_key(k) && k == self.items@[0].0,
    {
        if self.items.len() == 0 {
            None
        } else {
            proof {
                slot_is(self.items@, self.items@[0].0, 0);
            }
            Some(self.items[0].0)
        }
    }

    pub fn len(&self) -> (r: usize)
        requires
            self.wf(),
        ensures
            r == self.items@.len(),
            r == self@.dom().len(),
    {
        proof {
            keys_counted(self.items@);
        }
        self.items.len()
    }
}

/// What is put under a key is what is found there, until something else is put
/// there or it is taken out; what is under another key stays.
pub proof fn a_table_gives_back_what_was_put<K: Key, V>(key: K, value: V, other: K)
    ensures
        forall|table: &mut Table<K, V>, was: Option<V>, found: Option<&V>|
            #![trigger
                call_ensures(Table::<K, V>::insert, (table, key, value), was),
                call_ensures(Table::<K, V>::get, (&*final(table), &other), found),
            ]
            call_ensures(Table::<K, V>::insert, (table, key, value), was) && call_ensures(
                Table::<K, V>::get,
                (&*final(table), &other),
                found,
            ) ==> (other == key ==> found is Some && *found->0 == value) && (other != key ==> (found
                is Some <==> table@.contains_key(other)) && (found is Some ==> *found->0
                == table@[other])),
        forall|table: &mut Table<K, V>, was: Option<V>, found: Option<&V>|
            #![trigger
                call_ensures(Table::<K, V>::remove, (table, &key), was),
                call_ensures(Table::<K, V>::get, (&*final(table), &other), found),
            ]
            call_ensures(Table::<K, V>::remove, (table, &key), was) && call_ensures(
                Table::<K, V>::get,
                (&*final(table), &other),
                found,
            ) ==> (other == key ==> found is None) && (other != key ==> (found is Some
                <==> table@.contains_key(other)) && (found is Some ==> *found->0
                == table@[other])),
        forall|table: &mut Table<K, V>, before: Option<&V>, was: Option<V>|
            #![trigger
                call_ensures(Table::<K, V>::get, (&*table, &key), before),
                call_ensures(Table::<K, V>::remove, (table, &key), was),
            ]
            call_ensures(Table::<K, V>::get, (&*table, &key), before) && call_ensures(
                Table::<K, V>::remove,
                (table, &key),
                was,
            ) ==> (was is Some <==> before is Some) && (was is Some ==> was->0 == *before->0),
        forall|table: Table<K, V>, there: bool, found: Option<&V>|
            #![trigger
                call_ensures(Table::<K, V>::contains_key, (&table, &key), there),
                call_ensures(Table::<K, V>::get, (&table, &key), found),
            ]
            call_ensures(Table::<K, V>::contains_key, (&table, &key), there) && call_ensures(
                Table::<K, V>::get,
                (&table, &key),
                found,
            ) ==> there == (found is Some),
        forall|table: Table<K, V>, r: Option<K>| #[trigger]
            call_ensures(Table::<K, V>::first, (&table,), r) ==> if table.items@.len() == 0 {
                r is None
            } else {
                r == Some(table.items@[0].0)
            },
        forall|table: Table<K, V>, r: usize| #[trigger]
            call_ensures(Table::<K, V>::len, (&table,), r) ==> r == table.items@.len(),
{
}

/// A table that no key stands twice in holds under a key what stands behind it.
pub proof fn a_table_holds_its_items<K, V>(items: Seq<(K, V)>, i: int, key: K)
    requires
        distinct(items),
    ensures
        0 <= i < items.len() ==> as_map(items).contains_key(items[i].0) && as_map(items)[items[i].0]
            == items[i].1,
        as_map(items).contains_key(key) ==> exists|j: int|
            0 <= j < items.len() && (#[trigger] items[j]).0 == key,
{
    slot_finds(items, key);
    if 0 <= i < items.len() {
        item_is_mapped(items, i);
    }
    if as_map(items).contains_key(key) {
        let j = slot_of(items, key);
        assert(items[j].0 == key);
    }
}

/// A new table holds nothing, and a key is found where it stands.
pub proof fn a_table_begins_empty<K: Key, V>(key: K)
    ensures
        forall|r: Table<K, V>| #[trigger]
            call_ensures(Table::<K, V>::new, (), r) ==> r.items@.len() == 0 && !r@.contains_key(key),
        forall|table: Table<K, V>, r: Option<usize>| #[trigger]
            call_ensures(Table::<K, V>::find, (&table, &key), r) ==> (r is Some
                <==> table@.contains_key(key)) && (r is Some ==> r->0 < table.items@.len()
                && table.items@[r->0 as int].0 == key),
{
}

} // verus!
