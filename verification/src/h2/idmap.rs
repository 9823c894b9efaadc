//! A map keyed by stream id.
//!
//! Stream ids are small dense integers, so one multiplication spreads them
//! well enough. It is not the identity, because the peer chooses the ids: over
//! a power of two of buckets it could send every id to one of them. A bare
//! multiplication leaves the low bits, which pick the bucket, unmixed; folding
//! the high bits down spreads ids spaced by any power of two.
use vstd::prelude::*;

use crate::table::Table;

verus! {

pub const MIX: u64 = 0x517c_c1b7_2722_0a95;

/// How many buckets a map has.
pub const BUCKETS: usize = 256;

pub open spec fn spec_mix(v: u64) -> u64 {
    let h = v.wrapping_mul(MIX);
    h ^ (h >> 32)
}

/// Multiply, then fold the high half down.
pub fn mix(v: u64) -> (r: u64)
    ensures
        r == spec_mix(v),
{
    let h: u64 = v.wrapping_mul(MIX);
    h ^ (h >> 32)
}

/// A hash that is being computed.
#[derive(Clone, Copy, Debug, PartialEq, Eq, Structural)]
pub struct IdHasher(pub u64);

impl Default for IdHasher {
    fn default() -> (r: Self)
        ensures
            r == IdHasher(0),
    {
        IdHasher(0)
    }
}

/// The hash of `bytes`, one after the other, on top of `state`.
pub open spec fn hash_bytes(state: u64, bytes: Seq<u8>) -> u64
    decreases bytes.len(),
{
    if bytes.len() == 0 {
        state
    } else {
        (hash_bytes(state, bytes.drop_last()) ^ (bytes.last() as u64)).wrapping_mul(MIX)
    }
}

impl IdHasher {
    pub fn finish(&self) -> (r: u64)
        ensures
            r == self.0,
    {
        self.0
    }

    pub fn write(&mut self, bytes: &[u8])
        ensures
            final(self).0 == hash_bytes(old(self).0, bytes@),
    {
        let mut i: usize = 0;
        while i < bytes.len()
            invariant
                i <= bytes.len(),
                self.0 == hash_bytes(old(self).0, bytes@.take(i as int)),
            decreases bytes.len() - i,
        {
            assert(bytes@.take(i + 1).drop_last() =~= bytes@.take(i as int));
            self.0 = (self.0 ^ (bytes[i] as u64)).wrapping_mul(MIX);
            i = i + 1;
        }
        assert(bytes@.take(i as int) =~= bytes@);
    }

    pub fn write_i32(&mut self, v: i32)
        ensures
            final(self).0 == spec_mix(v as u64),
    {
        self.0 = mix(v as u64);
    }

    pub fn write_u32(&mut self, v: u32)
        ensures
            final(self).0 == spec_mix(v as u64),
    {
        self.0 = mix(v as u64);
    }
}

/// The bucket of an id.
pub open spec fn bucket_of(id: i32) -> int {
    spec_mix(id as u64) as int % BUCKETS as int
}

fn bucket(id: i32) -> (r: usize)
    ensures
        r == bucket_of(id),
        r < BUCKETS,
{
    let mut hasher = IdHasher::default();
    hasher.write_i32(id);
    (hasher.finish() % BUCKETS as u64) as usize
}

/// Values by stream id.
#[derive(Debug)]
pub struct IdMap<V> {
    pub buckets: Vec<Table<i32, V>>,
    /// How many ids there are. There are fewer stream ids than this can count.
    pub count: u64,
}

/// How many items the buckets hold.
pub open spec fn total<V>(buckets: Seq<Table<i32, V>>) -> nat
    decreases buckets.len(),
{
    if buckets.len() == 0 {
        0
    } else {
        total(buckets.drop_last()) + buckets.last().items@.len()
    }
}

proof fn total_update<V>(buckets: Seq<Table<i32, V>>, i: int, bucket: Table<i32, V>)
    requires
        0 <= i < buckets.len(),
    ensures
        total(buckets.update(i, bucket)) == total(buckets) - buckets[i].items@.len()
            + bucket.items@.len(),
    decreases buckets.len(),
{
    let next = buckets.update(i, bucket);
    if i == buckets.len() - 1 {
        assert(next.drop_last() =~= buckets.drop_last());
    } else {
        assert(next.drop_last() =~= buckets.drop_last().update(i, bucket));
        total_update(buckets.drop_last(), i, bucket);
    }
}

impl<V> View for IdMap<V> {
    type V = Map<i32, V>;

    open spec fn view(&self) -> Map<i32, V> {
        Map::new(
            |id: i32| self.buckets@[bucket_of(id)]@.contains_key(id),
            |id: i32| self.buckets@[bucket_of(id)]@[id],
        )
    }
}

/// Every id is in its own bucket.
pub open spec fn sorted_out<V>(buckets: Seq<Table<i32, V>>) -> bool {
    forall|i: int, id: i32|
        0 <= i < buckets.len() && #[trigger] buckets[i]@.contains_key(id) ==> bucket_of(id) == i
}

/// The ids in the first `n` buckets.
spec fn ids_in<V>(buckets: Seq<Table<i32, V>>, n: int) -> Set<i32> {
    Set::new(|id: i32| bucket_of(id) < n && buckets[bucket_of(id)]@.contains_key(id))
}

/// The buckets hold as many items as there are ids in them.
proof fn ids_counted<V>(buckets: Seq<Table<i32, V>>, n: int)
    requires
        0 <= n <= buckets.len(),
        sorted_out(buckets),
        forall|i: int| 0 <= i < buckets.len() ==> (#[trigger] buckets[i]).wf(),
    ensures
        ids_in(buckets, n).finite(),
        ids_in(buckets, n).len() == total(buckets.take(n)),
    decreases n,
{
    if n == 0 {
        assert(ids_in(buckets, n) =~= Set::<i32>::empty());
    } else {
        ids_counted(buckets, n - 1);
        let last = buckets[n - 1];
        assert(last.wf());
        crate::table::keys_counted(last.items@);
        let before = ids_in(buckets, n - 1);
        let more = last@.dom();
        assert forall|id: i32| #[trigger] ids_in(buckets, n).contains(id) <==> before.union(
            more,
        ).contains(id) by {
            if more.contains(id) {
                assert(buckets[n - 1]@.contains_key(id));
            }
        }
        assert(ids_in(buckets, n) =~= before.union(more));
        assert(before.disjoint(more)) by {
            assert forall|id: i32| before.contains(id) implies !more.contains(id) by {
                if more.contains(id) {
                    assert(buckets[n - 1]@.contains_key(id));
                }
            }
        }
        vstd::set_lib::lemma_set_disjoint_lens(before, more);
        assert(buckets.take(n).drop_last() =~= buckets.take(n - 1));
    }
}

/// There are no more ids than stream ids.
proof fn ids_are_few(ids: Set<i32>)
    requires
        ids.finite(),
    ensures
        ids.len() <= 0x1_0000_0000,
{
    let numbers = vstd::set_lib::set_int_range(i32::MIN as int, i32::MAX as int + 1);
    vstd::set_lib::lemma_int_range(i32::MIN as int, i32::MAX as int + 1);
    let named = ids.map(|id: i32| id as int);
    ids.lemma_map_finite(|id: i32| id as int);
    vstd::set_lib::lemma_map_size(ids, named, |id: i32| id as int);
    assert(named.subset_of(numbers));
    vstd::set_lib::lemma_len_subset(named, numbers);
}

/// A map without ids.
pub fn new_map<V>() -> (r: IdMap<V>)
    ensures
        r.wf(),
        r@ == Map::<i32, V>::empty(),
{
    let mut buckets: Vec<Table<i32, V>> = Vec::new();
    let mut i: usize = 0;
    while i < BUCKETS
        invariant
            i <= BUCKETS,
            buckets@.len() == i,
            forall|j: int| 0 <= j < i ==> (#[trigger] buckets@[j]).wf() && buckets@[j].items@.len() == 0,
            forall|j: int| 0 <= j < i ==> (#[trigger] buckets@[j])@ == Map::<i32, V>::empty(),
            total(buckets@) == 0,
        decreases BUCKETS - i,
    {
        let ghost before = buckets@;
        buckets.push(Table::new());
        assert(buckets@.drop_last() =~= before);
        i = i + 1;
    }
    let r = IdMap { buckets, count: 0 };
    assert(r@ =~= Map::<i32, V>::empty());
    r
}

impl<V> IdMap<V> {
    /// Every id is in its own bucket, once, and all are counted.
    pub open spec fn wf(self) -> bool {
        &&& self.buckets@.len() == BUCKETS
        &&& sorted_out(self.buckets@)
        &&& forall|i: int| 0 <= i < BUCKETS ==> (#[trigger] self.buckets@[i]).wf()
        &&& self.count == total(self.buckets@)
    }

    /// What is counted are the ids of the map.
    proof fn counted(self)
        requires
            self.wf(),
        ensures
            self@.dom().finite(),
            self.count == self@.dom().len(),
            self.count <= 0x1_0000_0000,
    {
        let n = BUCKETS as int;
        ids_counted(self.buckets@, n);
        assert(self.buckets@.take(n) =~= self.buckets@);
        assert(ids_in(self.buckets@, n) =~= self@.dom());
        ids_are_few(self@.dom());
    }

    pub fn contains_key(&self, id: &i32) -> (r: bool)
        requires
            self.wf(),
        ensures
            r == self@.contains_key(*id),
    {
        self.buckets[bucket(*id)].contains_key(id)
    }

    pub fn get(&self, id: &i32) -> (r: Option<&V>)
        requires
            self.wf(),
        ensures
            r is Some <==> self@.contains_key(*id),
            r matches Some(v) ==> *v == self@[*id],
    {
        self.buckets[bucket(*id)].get(id)
    }

    /// Put `value` under `id`, and return what was there.
    pub fn insert(&mut self, id: i32, value: V) -> (r: Option<V>)
        requires
            old(self).wf(),
        ensures
            final(self).wf(),
            final(self)@ == old(self)@.insert(id, value),
            r is Some <==> old(self)@.contains_key(id),
            r matches Some(v) ==> v == old(self)@[id],
    {
        proof {
            self.counted();
        }
        let i: usize = bucket(id);
        let r = self.buckets[i].insert(id, value);
        if r.is_none() {
            self.count = self.count + 1;
        }
        proof {
            assert(self.buckets@ =~= old(self).buckets@.update(i as int, self.buckets@[i as int]));
            total_update(old(self).buckets@, i as int, self.buckets@[i as int]);
            assert(self@ =~= old(self)@.insert(id, value));
        }
        r
    }

    /// Take out what is under `id`.
    pub fn remove(&mut self, id: &i32) -> (r: Option<V>)
        requires
            old(self).wf(),
        ensures
            final(self).wf(),
            final(self)@ == old(self)@.remove(*id),
            r is Some <==> old(self)@.contains_key(*id),
            r matches Some(v) ==> v == old(self)@[*id],
    {
        let i: usize = bucket(*id);
        let r = self.buckets[i].remove(id);
        proof {
            assert(self.buckets@ =~= old(self).buckets@.update(i as int, self.buckets@[i as int]));
            total_update(old(self).buckets@, i as int, self.buckets@[i as int]);
            total_at_least(old(self).buckets@, i as int);
            assert(self@ =~= old(self)@.remove(*id));
        }
        if r.is_some() {
            self.count = self.count - 1;
        }
        r
    }

    /// How many ids the map holds.
    pub fn len(&self) -> (r: u64)
        requires
            self.wf(),
        ensures
            r == self@.dom().len(),
    {
        proof {
            self.counted();
        }
        self.count
    }
}

proof fn total_at_least<V>(buckets: Seq<Table<i32, V>>, i: int)
    requires
        0 <= i < buckets.len(),
    ensures
        total(buckets) >= buckets[i].items@.len(),
    decreases buckets.len(),
{
    if i < buckets.len() - 1 {
        total_at_least(buckets.drop_last(), i);
    }
}

/// No two numbers have the same hash: multiplying by an odd number and folding
/// the high half down can both be undone.
pub proof fn ids_have_hashes_of_their_own(a: u64, b: u64, x: u64, y: u64)
    requires
        call_ensures(mix, (a,), x),
        call_ensures(mix, (b,), y),
        a != b,
    ensures
        x != y,
{
    let p = a.wrapping_mul(MIX);
    let q = b.wrapping_mul(MIX);
    multiplied_back(a);
    multiplied_back(b);
    if x == y {
        assert(p == q) by (bit_vector)
            requires
                p ^ (p >> 32) == q ^ (q >> 32),
        ;
    }
}

/// The product is undone by another one.
proof fn multiplied_back(v: u64)
    ensures
        v.wrapping_mul(MIX).wrapping_mul(0x2040_003d_7809_70bd) == v,
{
    let p: int = 0x1_0000_0000_0000_0000;
    let m: int = 0x517c_c1b7_2722_0a95;
    let i: int = 0x2040_003d_7809_70bd;
    let k: int = 0x0a43_f77a_e39d_ae8d;
    assert(m * i == 1 + k * p);
    let h = v.wrapping_mul(MIX) as int;
    assert(h == (v * m) % p);
    vstd::arithmetic::div_mod::lemma_mul_mod_noop_left(v * m, i, p);
    assert((v * m) * i == v + p * (v * k)) by (nonlinear_arith)
        requires
            m * i == 1 + k * p,
    ;
    vstd::arithmetic::div_mod::lemma_mod_multiples_vanish(v * k, v as int, p);
    assert((h * i) % p == v);
}

/// A hash is the product with the constant, modulo two to the 64th, with its
/// high half folded down onto the low one.
pub proof fn a_hash_is_a_folded_product(v: u64, r: u64)
    requires
        call_ensures(mix, (v,), r),
    ensures
        ({
            let h = (v as int * 0x517c_c1b7_2722_0a95 % 0x1_0000_0000_0000_0000) as u64;
            r == h ^ (h >> 32)
        }),
        forall|hasher: &mut IdHasher, id: u32| #[trigger]
            call_ensures(IdHasher::write_u32, (hasher, id), ()) && id == v ==> final(hasher).0 == r,
        forall|hasher: &mut IdHasher, id: i32| #[trigger]
            call_ensures(IdHasher::write_i32, (hasher, id), ()) && id as u64 == v ==> final(
                hasher).0 == r,
{
}

/// Bytes are hashed one after the other: a byte is added to the hash so far and
/// the sum multiplied, and hashing in two goes is hashing in one.
pub proof fn bytes_are_hashed_in_turn(first: &[u8], more: &[u8], whole: &[u8])
    requires
        whole@ == first@ + more@,
    ensures
        forall|a: &mut IdHasher, b: &mut IdHasher, c: &mut IdHasher|
            #![trigger
                call_ensures(IdHasher::write, (a, first), ()),
                call_ensures(IdHasher::write, (b, more), ()),
                call_ensures(IdHasher::write, (c, whole), ()),
            ]
            call_ensures(IdHasher::write, (a, first), ()) && call_ensures(
                IdHasher::write,
                (b, more),
                (),
            ) && *b == *final(a) && call_ensures(IdHasher::write, (c, whole), ()) && *c == *a
                ==> *final(c) == *final(b),
        forall|a: &mut IdHasher| #[trigger]
            call_ensures(IdHasher::write, (a, first), ()) ==> {
                &&& first@.len() == 0 ==> *final(a) == *a
                &&& first@.len() == 1 ==> final(a).0 == ((a.0 ^ (first@[0] as u64)) as int
                    * 0x517c_c1b7_2722_0a95) % 0x1_0000_0000_0000_0000
            },
{
    assert forall|state: u64| #[trigger]
        hash_bytes(state, whole@) == hash_bytes(hash_bytes(state, first@), more@) by {
        hash_joined(state, first@, more@);
    }
    assert forall|a: &mut IdHasher| #[trigger]
        call_ensures(IdHasher::write, (a, first), ()) implies first@.len() == 1 ==> final(a).0 == ((
    a.0 ^ (first@[0] as u64)) as int * 0x517c_c1b7_2722_0a95) % 0x1_0000_0000_0000_0000 by {
        if first@.len() == 1 {
            assert(first@.drop_last() =~= Seq::<u8>::empty());
            assert(hash_bytes(a.0, first@.drop_last()) == a.0);
        }
    }
}

proof fn hash_joined(state: u64, first: Seq<u8>, more: Seq<u8>)
    ensures
        hash_bytes(state, first + more) == hash_bytes(hash_bytes(state, first), more),
    decreases more.len(),
{
    if more.len() == 0 {
        assert(first + more =~= first);
    } else {
        assert((first + more).drop_last() =~= first + more.drop_last());
        hash_joined(state, first, more.drop_last());
    }
}

/// What is put under an id is what is found there, until something else is put
/// there or it is taken out; what is under another id stays.
pub proof fn a_map_gives_back_what_was_put<V>(id: i32, value: V, other: i32)
    ensures
        forall|map: &mut IdMap<V>, was: Option<V>, found: Option<&V>|
            #![trigger
                call_ensures(IdMap::<V>::insert, (map, id, value), was),
                call_ensures(IdMap::<V>::get, (&*final(map), &other), found),
            ]
            call_ensures(IdMap::<V>::insert, (map, id, value), was) && call_ensures(
                IdMap::<V>::get,
                (&*final(map), &other),
                found,
            ) ==> (other == id ==> found is Some && *found->0 == value) && (other != id ==> (found
                is Some <==> map@.contains_key(other)) && (found is Some ==> *found->0
                == map@[other])),
        forall|map: &mut IdMap<V>, was: Option<V>, found: Option<&V>|
            #![trigger
                call_ensures(IdMap::<V>::remove, (map, &id), was),
                call_ensures(IdMap::<V>::get, (&*final(map), &other), found),
            ]
            call_ensures(IdMap::<V>::remove, (map, &id), was) && call_ensures(
                IdMap::<V>::get,
                (&*final(map), &other),
                found,
            ) ==> (other == id ==> found is None) && (other != id ==> (found is Some
                <==> map@.contains_key(other)) && (found is Some ==> *found->0 == map@[other])),
        forall|map: &mut IdMap<V>, before: Option<&V>, was: Option<V>|
            #![trigger
                call_ensures(IdMap::<V>::get, (&*map, &id), before),
                call_ensures(IdMap::<V>::remove, (map, &id), was),
            ]
            call_ensures(IdMap::<V>::get, (&*map, &id), before) && call_ensures(
                IdMap::<V>::remove,
                (map, &id),
                was,
            ) ==> (was is Some <==> before is Some) && (was is Some ==> was->0 == *before->0),
        forall|map: IdMap<V>, there: bool, found: Option<&V>|
            #![trigger
                call_ensures(IdMap::<V>::contains_key, (&map, &id), there),
                call_ensures(IdMap::<V>::get, (&map, &id), found),
            ]
            call_ensures(IdMap::<V>::contains_key, (&map, &id), there) && call_ensures(
                IdMap::<V>::get,
                (&map, &id),
                found,
            ) ==> there == (found is Some),
{
}

/// A new map holds nothing, a map counts its ids, and a hash begins at zero.
pub proof fn a_map_begins_empty<V>(id: i32)
    ensures
        forall|r: IdMap<V>, found: Option<&V>|
            #![trigger
                call_ensures(new_map::<V>, (), r),
                call_ensures(IdMap::<V>::get, (&r, &id), found),
            ]
            call_ensures(new_map::<V>, (), r) && call_ensures(IdMap::<V>::get, (&r, &id), found)
                ==> found is None,
        forall|map: IdMap<V>, r: u64| #[trigger]
            call_ensures(IdMap::<V>::len, (&map,), r) ==> r == map@.dom().len(),
        forall|hasher: IdHasher, r: u64| #[trigger]
            call_ensures(IdHasher::finish, (&hasher,), r) ==> r == hasher.0,
        forall|r: IdHasher| #[trigger] call_ensures(IdHasher::default, (), r) ==> r.0 == 0,
{
}

} // verus!
