//! String-to-string maps, kept in the order of their keys.
//!
//! A map is a vector of entries whose keys grow strictly in byte order, so that
//! a key occurs once and the entries always come out in the same order.
use vstd::prelude::*;
use vstd::utf8::*;

use crate::text;
use crate::text::{text_order, TextOrder};

verus! {

/// A key and its value, as text.
pub type TextPair = (Seq<char>, Seq<char>);

/// The text of a run of entries.
pub open spec fn entry_texts(entries: Seq<(String, String)>) -> Seq<TextPair> {
    entries.map_values(|e: (String, String)| (e.0@, e.1@))
}

/// Whether the keys grow strictly in byte order.
pub open spec fn keys_ascend(pairs: Seq<TextPair>) -> bool {
    forall|i: int, j: int|
        0 <= i < j < pairs.len() ==> text::text_before(
            (#[trigger] pairs[i]).0,
            (#[trigger] pairs[j]).0,
        )
}

/// The map that a run of pairs stands for; a later pair replaces an earlier one
/// with the same key.
pub open spec fn map_of(pairs: Seq<TextPair>) -> Map<Seq<char>, Seq<char>>
    decreases pairs.len(),
{
    if pairs.len() == 0 {
        Map::empty()
    } else {
        map_of(pairs.drop_last()).insert(pairs.last().0, pairs.last().1)
    }
}

/// The number of UTF-8 bytes of all keys and values.
pub open spec fn pairs_bytes(pairs: Seq<TextPair>) -> nat
    decreases pairs.len(),
{
    if pairs.len() == 0 {
        0
    } else {
        pairs_bytes(pairs.drop_last()) + encode_utf8(pairs.last().0).len() + encode_utf8(
            pairs.last().1,
        ).len()
    }
}

proof fn lemma_ascending_keys_differ(pairs: Seq<TextPair>, i: int, j: int)
    requires
        keys_ascend(pairs),
        0 <= i < pairs.len(),
        0 <= j < pairs.len(),
        pairs[i].0 == pairs[j].0,
    ensures
        i == j,
{
    text::lemma_before_irreflexive(encode_utf8(pairs[i].0));
}

/// In a run with ascending keys the map holds exactly the pairs of the run.
pub proof fn lemma_map_of_ascending(pairs: Seq<TextPair>)
    requires
        keys_ascend(pairs),
    ensures
        forall|i: int|
            0 <= i < pairs.len() ==> map_of(pairs).dom().contains((#[trigger] pairs[i]).0)
                && map_of(pairs)[pairs[i].0] == pairs[i].1,
        forall|k: Seq<char>| #[trigger]
            map_of(pairs).dom().contains(k) ==> exists|i: int|
                0 <= i < pairs.len() && (#[trigger] pairs[i]).0 == k,
    decreases pairs.len(),
{
    if pairs.len() > 0 {
        let front = pairs.drop_last();
        assert forall|i: int, j: int| 0 <= i < j < front.len() implies text::text_before(
            (#[trigger] front[i]).0,
            (#[trigger] front[j]).0,
        ) by {
            assert(front[i] == pairs[i] && front[j] == pairs[j]);
        }
        lemma_map_of_ascending(front);
        assert forall|i: int| 0 <= i < pairs.len() implies map_of(pairs).dom().contains(
            (#[trigger] pairs[i]).0,
        ) && map_of(pairs)[pairs[i].0] == pairs[i].1 by {
            if i < front.len() {
                assert(front[i] == pairs[i]);
                if pairs[i].0 == pairs.last().0 {
                    lemma_ascending_keys_differ(pairs, i, pairs.len() - 1);
                }
            }
        }
        assert forall|k: Seq<char>| #[trigger] map_of(pairs).dom().contains(k) implies exists|
            i: int,
        |
            0 <= i < pairs.len() && (#[trigger] pairs[i]).0 == k by {
            if k == pairs.last().0 {
                assert(pairs[pairs.len() - 1].0 == k);
            } else {
                assert(map_of(front).dom().contains(k));
                let i = choose|i: int| 0 <= i < front.len() && (#[trigger] front[i]).0 == k;
                assert(pairs[i].0 == k);
            }
        }
    }
}

/// Two runs with ascending keys that stand for the same map are the same run:
/// the order of a map's entries is determined by the map.
pub proof fn law_entry_order_is_determined(p: Seq<TextPair>, q: Seq<TextPair>)
    requires
        keys_ascend(p),
        keys_ascend(q),
        map_of(p) == map_of(q),
    ensures
        p == q,
    decreases p.len(),
{
    lemma_map_of_ascending(p);
    lemma_map_of_ascending(q);
    if p.len() == 0 {
        if q.len() > 0 {
            assert(map_of(p).dom().contains(q[0].0));
        }
        assert(p =~= q);
    } else {
        assert(map_of(q).dom().contains(p[p.len() - 1].0));
        assert(q.len() > 0);
        let i = choose|i: int| 0 <= i < q.len() && (#[trigger] q[i]).0 == p.last().0;
        assert(map_of(p).dom().contains(q[q.len() - 1].0));
        let j = choose|j: int| 0 <= j < p.len() && (#[trigger] p[j]).0 == q.last().0;
        if i < q.len() - 1 {
            assert(text::text_before(q[i].0, q[q.len() - 1].0));
            if j < p.len() - 1 {
                assert(text::text_before(p[j].0, p[p.len() - 1].0));
                text::lemma_before_transitive(
                    encode_utf8(q[i].0),
                    encode_utf8(p[j].0),
                    encode_utf8(q[i].0),
                );
            }
            text::lemma_before_irreflexive(encode_utf8(q[i].0));
            assert(false);
        }
        let x = p.drop_last();
        let y = q.drop_last();
        assert(p.last().0 == q.last().0);
        assert(map_of(p)[p[p.len() - 1].0] == p.last().1);
        assert(map_of(q)[q[q.len() - 1].0] == q.last().1);
        assert forall|a: int, b: int| 0 <= a < b < x.len() implies text::text_before(
            (#[trigger] x[a]).0,
            (#[trigger] x[b]).0,
        ) by {
            assert(x[a] == p[a] && x[b] == p[b]);
        }
        assert forall|a: int, b: int| 0 <= a < b < y.len() implies text::text_before(
            (#[trigger] y[a]).0,
            (#[trigger] y[b]).0,
        ) by {
            assert(y[a] == q[a] && y[b] == q[b]);
        }
        lemma_map_of_ascending(x);
        lemma_map_of_ascending(y);
        assert(!map_of(x).dom().contains(p.last().0)) by {
            if map_of(x).dom().contains(p.last().0) {
                let a = choose|a: int| 0 <= a < x.len() && (#[trigger] x[a]).0 == p.last().0;
                lemma_ascending_keys_differ(p, a, p.len() - 1);
            }
        }
        assert(!map_of(y).dom().contains(q.last().0)) by {
            if map_of(y).dom().contains(q.last().0) {
                let a = choose|a: int| 0 <= a < y.len() && (#[trigger] y[a]).0 == q.last().0;
                lemma_ascending_keys_differ(q, a, q.len() - 1);
            }
        }
        assert(map_of(x) =~= map_of(p).remove(p.last().0));
        assert(map_of(y) =~= map_of(q).remove(q.last().0));
        law_entry_order_is_determined(x, y);
        assert(p =~= x.push(p.last()));
        assert(q =~= y.push(q.last()));
    }
}

/// The entries of a map in the order of their keys.
#[verifier::opaque]
pub open spec fn sorted_pairs(map: Map<Seq<char>, Seq<char>>) -> Seq<TextPair> {
    choose|p: Seq<TextPair>| keys_ascend(p) && map_of(p) == map
}

/// A run with ascending keys is the ordered form of the map that it stands for.
pub proof fn lemma_sorted_pairs(p: Seq<TextPair>)
    requires
        keys_ascend(p),
    ensures
        sorted_pairs(map_of(p)) == p,
        keys_ascend(sorted_pairs(map_of(p))),
        map_of(sorted_pairs(map_of(p))) == map_of(p),
{
    reveal(sorted_pairs);
    let q = sorted_pairs(map_of(p));
    assert(keys_ascend(q) && map_of(q) == map_of(p));
    law_entry_order_is_determined(p, q);
}

proof fn lemma_insert_at(pairs: Seq<TextPair>, at: int, k: Seq<char>, v: Seq<char>)
    requires
        keys_ascend(pairs),
        0 <= at <= pairs.len(),
        forall|i: int| 0 <= i < at ==> text::text_before((#[trigger] pairs[i]).0, k),
        forall|i: int| at <= i < pairs.len() ==> text::text_before(k, (#[trigger] pairs[i]).0),
    ensures
        keys_ascend(pairs.insert(at, (k, v))),
        map_of(pairs.insert(at, (k, v))) == map_of(pairs).insert(k, v),
{
    let next = pairs.insert(at, (k, v));
    assert forall|i: int, j: int| 0 <= i < j < next.len() implies text::text_before(
        (#[trigger] next[i]).0,
        (#[trigger] next[j]).0,
    ) by {
        let a = if i <= at { i } else { i - 1 };
        let b = if j <= at { j } else { j - 1 };
        assert(i != at ==> next[i] == pairs[a]);
        assert(j != at ==> next[j] == pairs[b]);
    }
    lemma_map_of_ascending(pairs);
    lemma_map_of_ascending(next);
    assert(next[at] == (k, v));
    assert forall|i: int| 0 <= i < pairs.len() implies (#[trigger] pairs[i]).0 != k by {
        text::lemma_before_irreflexive(encode_utf8(k));
    }
    assert forall|x: Seq<char>| map_of(next).dom().contains(x) == map_of(pairs).insert(
        k,
        v,
    ).dom().contains(x) by {
        if map_of(next).dom().contains(x) {
            let i = choose|i: int| 0 <= i < next.len() && (#[trigger] next[i]).0 == x;
            if i != at {
                let a = if i < at { i } else { i - 1 };
                assert(next[i] == pairs[a]);
            }
        }
        if map_of(pairs).dom().contains(x) {
            let a = choose|a: int| 0 <= a < pairs.len() && (#[trigger] pairs[a]).0 == x;
            let i = if a < at { a } else { a + 1 };
            assert(next[i] == pairs[a]);
        }
    }
    assert forall|x: Seq<char>| #[trigger] map_of(next).dom().contains(x) implies map_of(next)[x]
        == map_of(pairs).insert(k, v)[x] by {
        let i = choose|i: int| 0 <= i < next.len() && (#[trigger] next[i]).0 == x;
        if i != at {
            let a = if i < at { i } else { i - 1 };
            assert(next[i] == pairs[a]);
        }
    }
    assert(map_of(next) =~= map_of(pairs).insert(k, v));
}

proof fn lemma_update_at(pairs: Seq<TextPair>, at: int, v: Seq<char>)
    requires
        keys_ascend(pairs),
        0 <= at < pairs.len(),
    ensures
        keys_ascend(pairs.update(at, (pairs[at].0, v))),
        map_of(pairs.update(at, (pairs[at].0, v))) == map_of(pairs).insert(pairs[at].0, v),
{
    let k = pairs[at].0;
    let next = pairs.update(at, (k, v));
    assert forall|i: int, j: int| 0 <= i < j < next.len() implies text::text_before(
        (#[trigger] next[i]).0,
        (#[trigger] next[j]).0,
    ) by {
        assert(next[i].0 == pairs[i].0 && next[j].0 == pairs[j].0);
    }
    lemma_map_of_ascending(pairs);
    lemma_map_of_ascending(next);
    assert forall|x: Seq<char>| map_of(next).dom().contains(x) == map_of(pairs).insert(
        k,
        v,
    ).dom().contains(x) by {
        if map_of(next).dom().contains(x) {
            let i = choose|i: int| 0 <= i < next.len() && (#[trigger] next[i]).0 == x;
            assert(pairs[i].0 == x);
        }
        if map_of(pairs).dom().contains(x) {
            let a = choose|a: int| 0 <= a < pairs.len() && (#[trigger] pairs[a]).0 == x;
            assert(next[a].0 == x);
        }
        assert(next[at].0 == k);
    }
    assert forall|x: Seq<char>| #[trigger] map_of(next).dom().contains(x) implies map_of(next)[x]
        == map_of(pairs).insert(k, v)[x] by {
        let i = choose|i: int| 0 <= i < next.len() && (#[trigger] next[i]).0 == x;
        assert(pairs[i].0 == x);
        if i != at {
            if x == k {
                lemma_ascending_keys_differ(pairs, i, at);
            }
        }
    }
    assert(map_of(next) =~= map_of(pairs).insert(k, v));
}

/// A string-to-string map, ordered by key.
#[derive(Debug)]
pub struct AttributeMap {
    entries: Vec<(String, String)>,
}

impl View for AttributeMap {
    type V = Map<Seq<char>, Seq<char>>;

    closed spec fn view(&self) -> Map<Seq<char>, Seq<char>> {
        map_of(self.pairs())
    }
}

impl AttributeMap {
    /// The entries in the order of their keys.
    pub closed spec fn pairs(&self) -> Seq<TextPair> {
        entry_texts(self.entries@)
    }

    #[verifier::type_invariant]
    spec fn ascending(&self) -> bool {
        keys_ascend(self.pairs())
    }

    pub fn new() -> (map: Self)
        ensures
            map@ == Map::<Seq<char>, Seq<char>>::empty(),
            map.pairs() == Seq::<TextPair>::empty(),
    {
        let entries: Vec<(String, String)> = Vec::new();
        assert(entry_texts(entries@) =~= Seq::<TextPair>::empty());
        AttributeMap { entries }
    }

    /// Sets the value of a key.
    pub fn insert(&mut self, key: String, value: String)
        ensures
            final(self)@ == old(self)@.insert(key@, value@),
    {
        proof {
            use_type_invariant(&*self);
        }
        let ghost before = self.pairs();
        let mut entries: Vec<(String, String)> = Vec::new();
        assert(entry_texts(entries@) =~= Seq::<TextPair>::empty());
        std::mem::swap(&mut entries, &mut self.entries);
        let mut at: usize = 0;
        let ghost mut found = false;
        while at < entries.len()
            invariant_except_break
                !found,
            invariant
                at <= entries@.len(),
                before == entry_texts(entries@),
                keys_ascend(before),
                forall|i: int|
                    0 <= i < at ==> text::text_before((#[trigger] before[i]).0, key@),
            ensures
                found ==> at < entries@.len() && before[at as int].0 == key@,
                !found ==> forall|i: int|
                    at <= i < before.len() ==> text::text_before(key@, (#[trigger] before[i]).0),
            decreases entries.len() - at,
        {
            assert(before[at as int] == (entries@[at as int].0@, entries@[at as int].1@));
            match text_order(entries[at].0.as_str(), key.as_str()) {
                TextOrder::Before => {},
                TextOrder::Same => {
                    proof {
                        found = true;
                    }
                    break;
                },
                TextOrder::After => {
                    assert forall|i: int| at <= i < before.len() implies text::text_before(
                        key@,
                        (#[trigger] before[i]).0,
                    ) by {
                        if i > at {
                            assert(text::text_before(before[at as int].0, before[i].0));
                            text::lemma_before_transitive(
                                encode_utf8(key@),
                                encode_utf8(before[at as int].0),
                                encode_utf8(before[i].0),
                            );
                        }
                    }
                    break;
                },
            }
            at = at + 1;
        }
        let replace = if at < entries.len() {
            match text_order(entries[at].0.as_str(), key.as_str()) {
                TextOrder::Same => true,
                _ => false,
            }
        } else {
            false
        };
        proof {
            if at < before.len() {
                assert(before[at as int].0 == entries@[at as int].0@);
                text::lemma_before_irreflexive(encode_utf8(key@));
            }
            assert(replace == found);
        }
        if replace {
            proof {
                lemma_update_at(before, at as int, value@);
                assert(entry_texts(entries@.update(at as int, (key, value))) =~= before.update(
                    at as int,
                    (before[at as int].0, value@),
                ));
            }
            entries.set(at, (key, value));
        } else {
            proof {
                lemma_insert_at(before, at as int, key@, value@);
                assert(entry_texts(entries@.insert(at as int, (key, value))) =~= before.insert(
                    at as int,
                    (key@, value@),
                ));
            }
            entries.insert(at, (key, value));
        }
        self.entries = entries;
    }

    /// The number of entries.
    pub fn len(&self) -> (n: usize)
        ensures
            n == self.pairs().len(),
            self.pairs() == sorted_pairs(self@),
    {
        proof {
            use_type_invariant(self);
            lemma_sorted_pairs(self.pairs());
        }
        self.entries.len()
    }

    pub fn is_empty(&self) -> (b: bool)
        ensures
            b == (self.pairs().len() == 0),
    {
        self.entries.is_empty()
    }

    /// The key of the entry at position `i`.
    pub fn key_at(&self, i: usize) -> (k: &str)
        requires
            i < self.pairs().len(),
        ensures
            k@ == self.pairs()[i as int].0,
    {
        self.entries[i].0.as_str()
    }

    /// The value of the entry at position `i`.
    pub fn value_at(&self, i: usize) -> (v: &str)
        requires
            i < self.pairs().len(),
        ensures
            v@ == self.pairs()[i as int].1,
    {
        self.entries[i].1.as_str()
    }

    /// The value of a key.
    pub fn get(&self, key: &str) -> (r: Option<&str>)
        ensures
            match r {
                Some(v) => self@.dom().contains(key@) && v@ == self@[key@],
                None => !self@.dom().contains(key@),
            },
    {
        proof {
            use_type_invariant(self);
            lemma_map_of_ascending(self.pairs());
        }
        let mut i: usize = 0;
        while i < self.entries.len()
            invariant
                i <= self.pairs().len(),
                self.pairs() == entry_texts(self.entries@),
                self@ == map_of(self.pairs()),
                forall|j: int| 0 <= j < i ==> (#[trigger] self.pairs()[j]).0 != key@,
                forall|j: int|
                    0 <= j < self.pairs().len() ==> self@.dom().contains(
                        (#[trigger] self.pairs()[j]).0,
                    ) && self@[self.pairs()[j].0] == self.pairs()[j].1,
            decreases self.entries.len() - i,
        {
            assert(self.pairs()[i as int] == (
                self.entries@[i as int].0@,
                self.entries@[i as int].1@,
            ));
            match text_order(self.entries[i].0.as_str(), key) {
                TextOrder::Same => {
                    return Some(self.entries[i].1.as_str());
                },
                _ => {},
            }
            i = i + 1;
        }
        None
    }

    /// A copy without one key.
    pub fn copy_without(&self, key: &str) -> (map: Self)
        ensures
            map@ == self@.remove(key@),
            map.pairs() == sorted_pairs(map@),
    {
        proof {
            use_type_invariant(self);
        }
        let ghost pairs = self.pairs();
        let mut entries: Vec<(String, String)> = Vec::new();
        let mut i: usize = 0;
        assert(entry_texts(entries@) =~= Seq::<TextPair>::empty());
        assert(map_of(pairs.take(0)).remove(key@) =~= map_of(entry_texts(entries@)));
        while i < self.entries.len()
            invariant
                i <= self.entries@.len(),
                pairs == entry_texts(self.entries@),
                keys_ascend(pairs),
                keys_ascend(entry_texts(entries@)),
                map_of(entry_texts(entries@)) == map_of(pairs.take(i as int)).remove(key@),
                forall|j: int, l: int|
                    0 <= j < entries@.len() && i <= l < pairs.len() ==> text::text_before(
                        (#[trigger] entry_texts(entries@)[j]).0,
                        (#[trigger] pairs[l]).0,
                    ),
            decreases self.entries.len() - i,
        {
            let ghost before = entry_texts(entries@);
            let ghost pair = pairs[i as int];
            proof {
                assert(pair == (self.entries@[i as int].0@, self.entries@[i as int].1@));
                let next = pairs.take(i + 1);
                assert(next.drop_last() =~= pairs.take(i as int));
                assert(next.last() == pair);
            }
            match text_order(self.entries[i].0.as_str(), key) {
                TextOrder::Same => {
                    assert(map_of(pairs.take(i + 1)).remove(key@) =~= map_of(
                        pairs.take(i as int),
                    ).remove(key@));
                },
                _ => {
                    entries.push((self.entries[i].0.clone(), self.entries[i].1.clone()));
                    proof {
                        let after = entry_texts(entries@);
                        assert(after =~= before.push(pair));
                        assert(after.drop_last() =~= before);
                        assert(map_of(after) =~= map_of(before).insert(pair.0, pair.1));
                        assert(map_of(pairs.take(i + 1)).remove(key@) =~= map_of(
                            pairs.take(i as int),
                        ).remove(key@).insert(pair.0, pair.1));
                        assert forall|j: int, l: int|
                            0 <= j < l < after.len() implies text::text_before(
                            (#[trigger] after[j]).0,
                            (#[trigger] after[l]).0,
                        ) by {
                            if l < before.len() {
                                assert(after[j] == before[j] && after[l] == before[l]);
                            } else {
                                assert(after[j] == before[j]);
                            }
                        }
                        assert forall|j: int, l: int|
                            0 <= j < after.len() && i + 1 <= l < pairs.len() implies text::text_before(
                            (#[trigger] after[j]).0,
                            (#[trigger] pairs[l]).0,
                        ) by {
                            if j < before.len() {
                                assert(after[j] == before[j]);
                            }
                        }
                    }
                },
            }
            i = i + 1;
        }
        proof {
            assert(pairs.take(i as int) =~= pairs);
            lemma_sorted_pairs(entry_texts(entries@));
        }
        AttributeMap { entries }
    }

    /// The map of a list of pairs; a later pair replaces an earlier one with the
    /// same key.
    pub fn from_pairs(pairs: Vec<(String, String)>) -> (map: Self)
        ensures
            map@ == map_of(entry_texts(pairs@)),
    {
        let mut map = AttributeMap::new();
        let mut i: usize = 0;
        while i < pairs.len()
            invariant
                i <= pairs@.len(),
                map@ == map_of(entry_texts(pairs@.take(i as int))),
            decreases pairs.len() - i,
        {
            let key = pairs[i].0.clone();
            let value = pairs[i].1.clone();
            proof {
                let next = entry_texts(pairs@.take(i + 1));
                assert(next.drop_last() =~= entry_texts(pairs@.take(i as int)));
                assert(next.last() == (key@, value@));
            }
            map.insert(key, value);
            i = i + 1;
        }
        assert(pairs@.take(i as int) =~= pairs@);
        map
    }
}

impl AttributeMap {
    /// The entries in the order of their keys.
    pub fn to_pairs(&self) -> (pairs: Vec<(String, String)>)
        ensures
            entry_texts(pairs@) == self.pairs(),
    {
        let mut entries: Vec<(String, String)> = Vec::new();
        let mut i: usize = 0;
        while i < self.entries.len()
            invariant
                i <= self.entries@.len(),
                entries@.len() == i,
                forall|j: int|
                    0 <= j < i ==> (#[trigger] entries@[j]).0@ == self.entries@[j].0@
                        && entries@[j].1@ == self.entries@[j].1@,
            decreases self.entries.len() - i,
        {
            entries.push((self.entries[i].0.clone(), self.entries[i].1.clone()));
            i = i + 1;
        }
        assert(entry_texts(entries@) =~= self.pairs());
        entries
    }
}

impl Clone for AttributeMap {
    fn clone(&self) -> (map: Self)
        ensures
            map@ == self@,
            map.pairs() == self.pairs(),
            map.pairs() == sorted_pairs(map@),
    {
        proof {
            use_type_invariant(self);
            lemma_sorted_pairs(self.pairs());
        }
        let entries = self.to_pairs();
        AttributeMap { entries }
    }
}

/// A map holds, under each key of a run of pairs, the value of the last pair with
/// that key, and no other key.
pub proof fn law_last_pair_of_a_key_counts(pairs: Seq<TextPair>, key: Seq<char>)
    ensures
        map_of(pairs).contains_key(key) <==> exists|i: int|
            0 <= i < pairs.len() && (#[trigger] pairs[i]).0 == key,
        forall|i: int|
            0 <= i < pairs.len() && (#[trigger] pairs[i]).0 == key && (forall|j: int|
                i < j < pairs.len() ==> (#[trigger] pairs[j]).0 != key) ==> map_of(pairs)[key]
                == pairs[i].1,
    decreases pairs.len(),
{
    if pairs.len() > 0 {
        let front = pairs.drop_last();
        law_last_pair_of_a_key_counts(front, key);
        if pairs.last().0 == key {
            assert(pairs[pairs.len() - 1].0 == key);
        } else {
            assert(map_of(pairs).contains_key(key) == map_of(front).contains_key(key));
            if map_of(front).contains_key(key) {
                let i = choose|i: int| 0 <= i < front.len() && (#[trigger] front[i]).0 == key;
                assert(pairs[i].0 == key);
            }
            assert forall|i: int|
                0 <= i < pairs.len() && (#[trigger] pairs[i]).0 == key && (forall|j: int|
                    i < j < pairs.len() ==> (#[trigger] pairs[j]).0 != key) implies map_of(
                pairs,
            )[key] == pairs[i].1 by {
                assert(front[i] == pairs[i]);
                assert forall|j: int| i < j < front.len() implies (
                #[trigger] front[j]).0 != key by {
                    assert(front[j] == pairs[j]);
                }
            }
            if exists|i: int| 0 <= i < pairs.len() && (#[trigger] pairs[i]).0 == key {
                let i = choose|i: int| 0 <= i < pairs.len() && (#[trigger] pairs[i]).0 == key;
                assert(front[i].0 == key);
            }
        }
    }
}

/// A run with ascending keys can be had for a map without one of its keys.
pub(crate) proof fn lemma_ascending_without(p: Seq<TextPair>, key: Seq<char>) -> (q: Seq<TextPair>)
    requires
        keys_ascend(p),
    ensures
        keys_ascend(q),
        map_of(q) == map_of(p).remove(key),
        forall|j: int| 0 <= j < q.len() ==> p.contains(#[trigger] q[j]),
    decreases p.len(),
{
    if p.len() == 0 {
        assert(map_of(p).remove(key) =~= map_of(p));
        p
    } else {
        let front = p.drop_last();
        assert forall|i: int, j: int| 0 <= i < j < front.len() implies text::text_before(
            (#[trigger] front[i]).0,
            (#[trigger] front[j]).0,
        ) by {
            assert(front[i] == p[i] && front[j] == p[j]);
        }
        let r = lemma_ascending_without(front, key);
        let q = if p.last().0 == key {
            r
        } else {
            r.push(p.last())
        };
        assert forall|j: int| 0 <= j < q.len() implies p.contains(#[trigger] q[j]) by {
            if j < r.len() {
                assert(q[j] == r[j]);
                let k = choose|k: int| 0 <= k < front.len() && front[k] == r[j];
                assert(p[k] == q[j]);
            } else {
                assert(p[p.len() - 1] == q[j]);
            }
        }
        assert forall|i: int, j: int| 0 <= i < j < q.len() implies text::text_before(
            (#[trigger] q[i]).0,
            (#[trigger] q[j]).0,
        ) by {
            assert(q[i] == r[i]);
            if j < r.len() {
                assert(q[j] == r[j]);
            } else {
                assert(front.contains(r[i]));
                let k = choose|k: int| 0 <= k < front.len() && front[k] == r[i];
                assert(p[k] == q[i] && p[p.len() - 1] == q[j]);
                assert(text::text_before(p[k].0, p[p.len() - 1].0));
            }
        }
        if p.last().0 == key {
            assert(map_of(q) =~= map_of(p).remove(key));
        } else {
            assert(q.drop_last() =~= r);
            assert(map_of(q) =~= map_of(p).remove(key));
        }
        q
    }
}

/// A key that was inserted is found with its value, in place of an earlier one; every
/// other key is found as before.
pub proof fn law_inserted_key_is_found(
    map: &mut AttributeMap,
    key: String,
    value: String,
    other: Seq<char>,
)
    requires
        call_ensures(AttributeMap::insert, (map, key, value), ()),
        other != key@,
    ensures
        final(map)@.contains_key(key@),
        final(map)@[key@] == value@,
        final(map)@.contains_key(other) <==> old(map)@.contains_key(other),
        old(map)@.contains_key(other) ==> final(map)@[other] == old(map)@[other],
{
}

/// A copy without a key lacks that key alone.
pub proof fn law_copy_lacks_one_key(
    map: &AttributeMap,
    key: &str,
    copy: AttributeMap,
    again: AttributeMap,
    other: Seq<char>,
)
    requires
        call_ensures(AttributeMap::copy_without, (map, key), copy),
        call_ensures(<AttributeMap as Clone>::clone, (map,), again),
        other != key@,
    ensures
        !copy@.contains_key(key@),
        copy@.contains_key(other) <==> map@.contains_key(other),
        map@.contains_key(other) ==> copy@[other] == map@[other],
        again@ == map@,
{
}

/// A map is asked for a key and answers with its value, or with nothing.
pub proof fn law_map_is_asked(map: &AttributeMap, key: &str, r: Option<&str>)
    requires
        call_ensures(AttributeMap::get, (map, key), r),
    ensures
        r is Some <==> map@.contains_key(key@),
        r matches Some(v) ==> v@ == map@[key@],
{
}

} // verus!
