//! Fixed 256-entry lookup tables from byte to byte.
//!
//! A table is never changed in place: every operation that looks like an
//! update returns a new table.

use vstd::prelude::*;
use std::collections::HashMap;
use vstd::std_specs::hash::spec_hash_map_iter;
use vstd::std_specs::iter::IteratorSpec;
use crate::neural::traits::Mapper;

verus! {

/// The largest value a byte can hold.
pub const MAX: u8 = 255;

/// The number of entries in a lookup table: one per byte value.
pub const MAX_LENGTH: usize = 256;

/// An immutable lookup table that maps every byte to a byte.
///
/// Its view is the table as a sequence of 256 bytes: entry `i` is the output
/// for input `i`.
pub struct MapperNode {
    tf: [u8; MAX_LENGTH],
}

impl View for MapperNode {
    type V = Seq<u8>;

    closed spec fn view(&self) -> Seq<u8> {
        self.tf@
    }
}

/// Every table has exactly one entry for each byte value, so a lookup is
/// defined for every input.
pub broadcast proof fn lemma_table_len(node: MapperNode)
    ensures
        #[trigger] node@.len() == 256,
{
}

/// The table that holds `value` in every entry.
pub open spec fn constant_table(value: u8) -> Seq<u8> {
    Seq::new(256, |i: int| value)
}

/// The table after the pairs have been written into it one after the other:
/// each pair `(key, value)` puts `value` at index `key`.
pub open spec fn apply_pairs(table: Seq<u8>, pairs: Seq<(u8, u8)>) -> Seq<u8>
    decreases pairs.len(),
{
    if pairs.len() == 0 {
        table
    } else {
        apply_pairs(table, pairs.drop_last()).update(pairs.last().0 as int, pairs.last().1)
    }
}

/// The table with `value` at every index that occurs in `keys`, and the old
/// entry everywhere else.
pub open spec fn override_keys(table: Seq<u8>, keys: Seq<u8>, value: u8) -> Seq<u8> {
    Seq::new(
        256,
        |i: int|
            if keys.contains(i as u8) {
                value
            } else {
                table[i]
            },
    )
}

/// The table with the value of `mapping` at every index that is one of its
/// keys, and the old entry everywhere else.
pub open spec fn override_map(table: Seq<u8>, mapping: Map<u8, u8>) -> Seq<u8> {
    Seq::new(
        256,
        |i: int|
            if mapping.contains_key(i as u8) {
                mapping[i as u8]
            } else {
                table[i]
            },
    )
}

/// The bytes from `first` to `last`, both included, in ascending order;
/// empty where `first` is greater than `last`.
pub open spec fn inclusive(first: u8, last: u8) -> Seq<u8> {
    if first <= last {
        Seq::new((last - first + 1) as nat, |i: int| (first + i) as u8)
    } else {
        Seq::empty()
    }
}

/// A byte occurs in `inclusive(first, last)` exactly if it lies between
/// `first` and `last`.
pub proof fn lemma_inclusive_contains(first: u8, last: u8, key: u8)
    ensures
        inclusive(first, last).contains(key) <==> first <= key <= last,
{
    if first <= key <= last {
        assert(inclusive(first, last)[key - first] == key);
    }
}

/// Whether one of the first `n` entries of a walk over a map has the key
/// `key`.
spec fn written(entries: Seq<(&u8, &u8)>, n: int, key: u8) -> bool {
    exists|i: int| 0 <= i < n && *entries[i].0 == key
}

/// Writing pairs into a table of 256 entries keeps its length.
pub proof fn lemma_apply_pairs_len(table: Seq<u8>, pairs: Seq<(u8, u8)>)
    requires
        table.len() == 256,
    ensures
        apply_pairs(table, pairs).len() == table.len(),
    decreases pairs.len(),
{
    if pairs.len() > 0 {
        lemma_apply_pairs_len(table, pairs.drop_last());
    }
}

/// The last write for a key wins: after the pairs have been written, the
/// entry at `key` is the value of the last pair with that key, and the old
/// entry if no pair has that key.
pub proof fn lemma_last_write_wins(table: Seq<u8>, pairs: Seq<(u8, u8)>, key: u8)
    requires
        table.len() == 256,
    ensures
        (forall|j: int| 0 <= j < pairs.len() ==> pairs[j].0 != key) ==> apply_pairs(
            table,
            pairs,
        )[key as int] == table[key as int],
        forall|i: int|
            0 <= i < pairs.len() && pairs[i].0 == key && (forall|j: int|
                i < j < pairs.len() ==> pairs[j].0 != key) ==> apply_pairs(
                table,
                pairs,
            )[key as int] == pairs[i].1,
    decreases pairs.len(),
{
    if pairs.len() > 0 {
        let head = pairs.drop_last();
        let n = pairs.len() as int;
        lemma_last_write_wins(table, head, key);
        lemma_apply_pairs_len(table, head);
        assert forall|i: int|
            0 <= i < pairs.len() && pairs[i].0 == key && (forall|j: int|
                i < j < pairs.len() ==> pairs[j].0 != key) implies apply_pairs(
            table,
            pairs,
        )[key as int] == pairs[i].1 by {
            if i < n - 1 {
                assert(pairs[n - 1].0 != key);
                assert(head[i] == pairs[i]);
                assert forall|j: int| i < j < head.len() implies head[j].0 != key by {
                    assert(head[j] == pairs[j]);
                }
            }
        }
        if forall|j: int| 0 <= j < pairs.len() ==> pairs[j].0 != key {
            assert(pairs[n - 1].0 != key);
            assert forall|j: int| 0 <= j < head.len() implies head[j].0 != key by {
                assert(head[j] == pairs[j]);
            }
        }
    }
}

/// Lists the bytes from `first` to `last`, both included, in ascending
/// order. The list is empty where `first` is greater than `last`.
pub fn byte_range(first: u8, last: u8) -> (keys: Vec<u8>)
    ensures
        keys@ == inclusive(first, last),
{
    let mut keys: Vec<u8> = Vec::new();
    if first > last {
        return keys;
    }
    let start: u16 = first as u16;
    let end: u16 = last as u16 + 1;
    for c in start..end
        invariant
            start == first,
            end == last + 1,
            keys@ == Seq::new((c - first) as nat, |i: int| (first + i) as u8),
    {
        keys.push(c as u8);
        assert(keys@ =~= Seq::new((c + 1 - first) as nat, |i: int| (first + i) as u8));
    }
    keys
}

impl MapperNode {
    /// Creates a table that maps every byte to 0.
    pub fn new() -> (node: MapperNode)
        ensures
            node@ == constant_table(0),
    {
        let node = MapperNode { tf: [0u8;MAX_LENGTH] };
        assert(node@ =~= constant_table(0));
        node
    }

    /// Creates a table from the 256 entries given, unchanged.
    pub fn new_from(data: [u8; MAX_LENGTH]) -> (node: MapperNode)
        ensures
            node@ == data@,
    {
        MapperNode { tf: data }
    }

    /// Creates a table whose entry at each index is what `transfn` returns
    /// for that index.
    pub fn new_transformation(transfn: impl Fn(usize) -> u8) -> (node: MapperNode)
        requires
            forall|i: usize| i < 256 ==> call_requires(transfn, (i,)),
        ensures
            forall|i: usize| i < 256 ==> call_ensures(transfn, (i,), #[trigger] node@[i as int]),
    {
        let mut data: [u8; MAX_LENGTH] = [0u8;MAX_LENGTH];
        for i in 0..MAX_LENGTH
            invariant
                forall|j: usize| j < 256 ==> call_requires(transfn, (j,)),
                forall|j: usize| j < i ==> call_ensures(transfn, (j,), #[trigger] data@[j as int]),
        {
            data[i] = transfn(i);
        }
        MapperNode::new_from(data)
    }

    /// Looks up the entry for `input`.
    pub fn tranform(&self, input: u8) -> (out: u8)
        ensures
            out == self@[input as int],
    {
        self.tf[input as usize]
    }

    /// Returns the length of the table, which is always 256.
    pub fn len(&self) -> (n: usize)
        ensures
            n == 256,
            n == self@.len(),
    {
        self.tf.len()
    }

    /// Returns a table that holds `value` in every entry.
    pub fn with_fill(&self, value: u8) -> (node: MapperNode)
        ensures
            node@ == constant_table(value),
    {
        let data: [u8; MAX_LENGTH] = [value;MAX_LENGTH];
        assert(data@ =~= constant_table(value));
        MapperNode::new_from(data)
    }

    /// Returns a table with the given key-value pairs written over a copy of
    /// this one, in the order given: the last write for a key wins.
    pub fn with_mapdata(&self, mapdata: &[(u8, u8)]) -> (node: MapperNode)
        ensures
            node@ == apply_pairs(self@, mapdata@),
    {
        let mut data: [u8; MAX_LENGTH] = self.tf;
        for n in 0..mapdata.len()
            invariant
                data@ == apply_pairs(self@, mapdata@.take(n as int)),
        {
            assert(mapdata@.take(n + 1).drop_last() == mapdata@.take(n as int));
            let (k, v) = mapdata[n];
            data[k as usize] = v;
        }
        assert(mapdata@.take(mapdata@.len() as int) == mapdata@);
        MapperNode::new_from(data)
    }

    /// Returns a table with the entries of `mapdata` written over a copy of
    /// this one. A map holds each key once, so the order in which it is
    /// walked makes no difference.
    pub fn with_mapdata_hashmap(&self, mapdata: &HashMap<u8, u8>) -> (node: MapperNode)
        ensures
            node@ == override_map(self@, mapdata@),
    {
        broadcast use vstd::std_specs::hash::group_hash_axioms;

        let mut data: [u8; MAX_LENGTH] = self.tf;
        let ghost entries = spec_hash_map_iter(mapdata).remaining();
        for pair in it: mapdata.iter()
            invariant
                it.seq() == entries,
                entries == spec_hash_map_iter(mapdata).remaining(),
                forall|j: int|
                    0 <= j < 256 ==> #[trigger] data@[j] == if written(entries, it.index(), j as u8) {
                        mapdata@[j as u8]
                    } else {
                        self@[j]
                    },
        {
            let (k, v) = pair;
            proof {
                let n = it.index();
                assert(entries[n] == pair);
                assert(mapdata@.contains_key(*entries[n].0));
                assert forall|j: u8| written(entries, n + 1, j) <==> (written(entries, n, j) || j
                    == *k) by {
                    if written(entries, n, j) {
                        let i = choose|i: int| 0 <= i < n && *entries[i].0 == j;
                        assert(0 <= i < n + 1 && *entries[i].0 == j);
                    }
                    if j == *k {
                        assert(0 <= n < n + 1 && *entries[n].0 == j);
                    }
                }
            }
            data[*k as usize] = *v;
        }
        proof {
            let n = entries.len() as int;
            assert forall|j: u8| written(entries, n, j) <==> mapdata@.contains_key(j) by {
                if written(entries, n, j) {
                    let i = choose|i: int| 0 <= i < n && *entries[i].0 == j;
                    assert(mapdata@.contains_key(*entries[i].0));
                }
                if mapdata@.contains_key(j) {
                    assert(entries.contains((&j, &mapdata@[j])));
                    let i = choose|i: int| 0 <= i < n && entries[i] == (&j, &mapdata@[j]);
                    assert(*entries[i].0 == j);
                }
            }
            assert(data@ =~= override_map(self@, mapdata@));
        }
        MapperNode::new_from(data)
    }

    /// Returns a table with `value` at every key in `range`, and this
    /// table's entry everywhere else.
    pub fn with_range(&self, range: &[u8], value: u8) -> (node: MapperNode)
        ensures
            node@ == override_keys(self@, range@, value),
    {
        let mut data: [u8; MAX_LENGTH] = self.tf;
        for n in 0..range.len()
            invariant
                data@ == override_keys(self@, range@.take(n as int), value),
        {
            let c: u8 = range[n];
            data[c as usize] = value;
            proof {
                let before = range@.take(n as int);
                let after = range@.take(n + 1);
                assert(after == before.push(c));
                assert forall|k: u8| after.contains(k) <==> (before.contains(k) || k == c) by {
                    if before.contains(k) {
                        let i = choose|i: int| 0 <= i < before.len() && before[i] == k;
                        assert(after[i] == k);
                    }
                    if k == c {
                        assert(after[n as int] == k);
                    }
                }
                assert(data@ =~= override_keys(self@, after, value));
            }
        }
        assert(range@.take(range@.len() as int) == range@);
        MapperNode::new_from(data)
    }

    /// Returns a table whose entry at each index is what `modification`
    /// returns for that index and the current entry there.
    pub fn with_modification(&self, modification: impl Fn(usize, u8) -> u8) -> (node: MapperNode)
        requires
            forall|i: usize| i < 256 ==> call_requires(modification, (i, #[trigger] self@[i as int])),
        ensures
            forall|i: usize|
                i < 256 ==> call_ensures(
                    modification,
                    (i, self@[i as int]),
                    #[trigger] node@[i as int],
                ),
    {
        let mut data: [u8; MAX_LENGTH] = self.tf;
        for i in 0..MAX_LENGTH
            invariant
                forall|j: usize|
                    j < 256 ==> call_requires(modification, (j, #[trigger] self@[j as int])),
                forall|j: usize|
                    j < i ==> call_ensures(
                        modification,
                        (j, self@[j as int]),
                        #[trigger] data@[j as int],
                    ),
                forall|j: usize| i <= j < 256 ==> data@[j as int] == self@[j as int],
        {
            data[i] = modification(i, data[i]);
        }
        MapperNode::new_from(data)
    }

    /// Returns a table with each entry replaced by `MAX` minus the entry.
    pub fn invert(&self) -> (node: MapperNode)
        ensures
            forall|i: int| 0 <= i < 256 ==> #[trigger] node@[i] == MAX - self@[i],
    {
        let complement = |_i: usize, d: u8| -> (r: u8)
            ensures r == MAX - d
        {
            MAX - d
        };
        let node = self.with_modification(complement);
        assert forall|i: int| 0 <= i < 256 implies #[trigger] node@[i] == 255 - self@[i] by {
            assert(node@[(i as usize) as int] == 255 - self@[i]);
        }
        node
    }

    /// Returns a table with each entry replaced by its bitwise complement.
    pub fn not(&self) -> (node: MapperNode)
        ensures
            forall|i: int| 0 <= i < 256 ==> #[trigger] node@[i] == !self@[i],
    {
        let negate = |_i: usize, d: u8| -> (r: u8)
            ensures r == !d
        {
            !d
        };
        let node = self.with_modification(negate);
        assert forall|i: int| 0 <= i < 256 implies #[trigger] node@[i] == !self@[i] by {
            assert(node@[(i as usize) as int] == !self@[i]);
        }
        node
    }

    /// Returns a table with each entry ANDed with the entry of `other` at
    /// the same index.
    pub fn and_node(&self, other: &MapperNode) -> (node: MapperNode)
        ensures
            forall|i: int| 0 <= i < 256 ==> #[trigger] node@[i] == self@[i] & other@[i],
    {
        let combine = |i: usize, d: u8| -> (r: u8)
            requires i < 256
            ensures r == d & other@[i as int]
        {
            d & other.tf[i]
        };
        let node = self.with_modification(combine);
        assert forall|i: int| 0 <= i < 256 implies #[trigger] node@[i] == self@[i] & other@[i] by {
            assert(node@[(i as usize) as int] == self@[i] & other@[i]);
        }
        node
    }

    /// Returns a table with each entry ANDed with `v`.
    pub fn and(&self, v: u8) -> (node: MapperNode)
        ensures
            forall|i: int| 0 <= i < 256 ==> #[trigger] node@[i] == self@[i] & v,
    {
        let combine = |_i: usize, d: u8| -> (r: u8)
            ensures r == d & v
        {
            d & v
        };
        let node = self.with_modification(combine);
        assert forall|i: int| 0 <= i < 256 implies #[trigger] node@[i] == self@[i] & v by {
            assert(node@[(i as usize) as int] == self@[i] & v);
        }
        node
    }

    /// Returns a table with each entry ORed with the entry of `other` at
    /// the same index.
    pub fn or_node(&self, other: &MapperNode) -> (node: MapperNode)
        ensures
            forall|i: int| 0 <= i < 256 ==> #[trigger] node@[i] == self@[i] | other@[i],
    {
        let combine = |i: usize, d: u8| -> (r: u8)
            requires i < 256
            ensures r == d | other@[i as int]
        {
            d | other.tf[i]
        };
        let node = self.with_modification(combine);
        assert forall|i: int| 0 <= i < 256 implies #[trigger] node@[i] == self@[i] | other@[i] by {
            assert(node@[(i as usize) as int] == self@[i] | other@[i]);
        }
        node
    }

    /// Returns a table with each entry ORed with `v`.
    pub fn or(&self, v: u8) -> (node: MapperNode)
        ensures
            forall|i: int| 0 <= i < 256 ==> #[trigger] node@[i] == self@[i] | v,
    {
        let combine = |_i: usize, d: u8| -> (r: u8)
            ensures r == d | v
        {
            d | v
        };
        let node = self.with_modification(combine);
        assert forall|i: int| 0 <= i < 256 implies #[trigger] node@[i] == self@[i] | v by {
            assert(node@[(i as usize) as int] == self@[i] | v);
        }
        node
    }

    /// Returns a table with each entry XORed with the entry of `other` at
    /// the same index.
    pub fn xor_node(&self, other: &MapperNode) -> (node: MapperNode)
        ensures
            forall|i: int| 0 <= i < 256 ==> #[trigger] node@[i] == self@[i] ^ other@[i],
    {
        let combine = |i: usize, d: u8| -> (r: u8)
            requires i < 256
            ensures r == d ^ other@[i as int]
        {
            d ^ other.tf[i]
        };
        let node = self.with_modification(combine);
        assert forall|i: int| 0 <= i < 256 implies #[trigger] node@[i] == self@[i] ^ other@[i] by {
            assert(node@[(i as usize) as int] == self@[i] ^ other@[i]);
        }
        node
    }

    /// Returns a table with each entry XORed with `v`.
    pub fn xor(&self, v: u8) -> (node: MapperNode)
        ensures
            forall|i: int| 0 <= i < 256 ==> #[trigger] node@[i] == self@[i] ^ v,
    {
        let combine = |_i: usize, d: u8| -> (r: u8)
            ensures r == d ^ v
        {
            d ^ v
        };
        let node = self.with_modification(combine);
        assert forall|i: int| 0 <= i < 256 implies #[trigger] node@[i] == self@[i] ^ v by {
            assert(node@[(i as usize) as int] == self@[i] ^ v);
        }
        node
    }
}

impl Mapper for MapperNode {
    open spec fn spec_transform(&self, input: u8) -> u8 {
        self@[input as int]
    }

    fn transform(&self, input: u8) -> (out: u8) {
        self.tranform(input)
    }
}

} // verus!
