//! Order statistics of samples. A sample is known by an integer key that orders
//! it among the others.
use vstd::prelude::*;
use vstd::relations::*;
use vstd::seq_lib::*;

verus! {

/// The order of keys.
pub open spec fn at_most() -> spec_fn(u64, u64) -> bool {
    |a: u64, b: u64| a <= b
}

/// The keys in ascending order.
pub open spec fn ranked(keys: Seq<u64>) -> Seq<u64> {
    keys.sort_by(at_most())
}

proof fn lemma_ranked(keys: Seq<u64>)
    ensures
        ranked(keys).to_multiset() == keys.to_multiset(),
        ranked(keys).len() == keys.len(),
        sorted_by(ranked(keys), at_most()),
{
    assert(total_ordering(at_most()));
    keys.lemma_sort_by_ensures(at_most());
    keys.to_multiset_ensures();
    ranked(keys).to_multiset_ensures();
}

proof fn lemma_ranked_is(keys: Seq<u64>, sorted: Seq<u64>)
    requires
        sorted.to_multiset() == keys.to_multiset(),
        sorted_by(sorted, at_most()),
    ensures
        sorted == ranked(keys),
{
    assert(total_ordering(at_most()));
    lemma_ranked(keys);
    lemma_sorted_unique(sorted, ranked(keys), at_most());
}

proof fn lemma_take_push(s: Seq<u64>, i: int)
    requires
        0 <= i < s.len(),
    ensures
        s.take(i + 1).to_multiset() == s.take(i).to_multiset().insert(s[i]),
{
    assert(s.take(i + 1) =~= s.take(i).push(s[i]));
    s.take(i).to_multiset_ensures();
}

fn merge(left: &Vec<u64>, right: &Vec<u64>) -> (r: Vec<u64>)
    requires
        sorted_by(left@, at_most()),
        sorted_by(right@, at_most()),
    ensures
        sorted_by(r@, at_most()),
        r@.to_multiset() == left@.to_multiset().add(right@.to_multiset()),
{
    broadcast use vstd::multiset::group_multiset_axioms;

    let mut r: Vec<u64> = Vec::new();
    let mut i: usize = 0;
    let mut j: usize = 0;
    proof {
        assert(left@.take(0) =~= Seq::<u64>::empty());
        assert(right@.take(0) =~= Seq::<u64>::empty());
        lemma_multiset_commutative(left@.take(0), right@.take(0));
        assert(r@ =~= left@.take(0) + right@.take(0));
    }
    while i < left.len() || j < right.len()
        invariant
            i <= left@.len(),
            j <= right@.len(),
            sorted_by(left@, at_most()),
            sorted_by(right@, at_most()),
            sorted_by(r@, at_most()),
            forall|k: int| 0 <= k < r@.len() && i < left@.len() ==> #[trigger] r@[k] <= left@[i as int],
            forall|k: int|
                0 <= k < r@.len() && j < right@.len() ==> #[trigger] r@[k] <= right@[j as int],
            r@.to_multiset() == left@.take(i as int).to_multiset().add(
                right@.take(j as int).to_multiset(),
            ),
        decreases left@.len() - i + right@.len() - j,
    {
        let from_left: bool = j == right.len() || (i < left.len() && left[i] <= right[j]);
        proof {
            r@.to_multiset_ensures();
        }
        let ghost before = r@;
        if from_left {
            let key: u64 = left[i];
            proof {
                lemma_take_push(left@, i as int);
                if i + 1 < left@.len() {
                    assert(at_most()(left@[i as int], left@[i + 1]));
                }
            }
            r.push(key);
            i = i + 1;
            assert(r@.to_multiset() =~= left@.take(i as int).to_multiset().add(
                right@.take(j as int).to_multiset(),
            ));
        } else {
            let key: u64 = right[j];
            proof {
                lemma_take_push(right@, j as int);
                if j + 1 < right@.len() {
                    assert(at_most()(right@[j as int], right@[j + 1]));
                }
            }
            r.push(key);
            j = j + 1;
            assert(r@.to_multiset() =~= left@.take(i as int).to_multiset().add(
                right@.take(j as int).to_multiset(),
            ));
        }
        assert forall|a: int, b: int| 0 <= a < b < r@.len() implies #[trigger] at_most()(
            r@[a],
            r@[b],
        ) by {
            if b < before.len() {
                assert(at_most()(before[a], before[b]));
            } else {
                assert(r@[a] == before[a]);
            }
        }
    }
    assert(left@.take(i as int) =~= left@);
    assert(right@.take(j as int) =~= right@);
    r
}

fn sort_range(keys: &Vec<u64>, from: usize, to: usize) -> (r: Vec<u64>)
    requires
        from <= to <= keys@.len(),
    ensures
        sorted_by(r@, at_most()),
        r@.to_multiset() == keys@.subrange(from as int, to as int).to_multiset(),
    decreases to - from,
{
    if to - from <= 1 {
        let mut r: Vec<u64> = Vec::new();
        if from < to {
            r.push(keys[from]);
        }
        assert(r@ =~= keys@.subrange(from as int, to as int));
        r
    } else {
        let middle: usize = from + (to - from) / 2;
        let left = sort_range(keys, from, middle);
        let right = sort_range(keys, middle, to);
        proof {
            let a = keys@.subrange(from as int, middle as int);
            let b = keys@.subrange(middle as int, to as int);
            lemma_multiset_commutative(a, b);
            assert(a + b =~= keys@.subrange(from as int, to as int));
        }
        merge(&left, &right)
    }
}

/// Sorts keys.
pub fn sort_keys(keys: &Vec<u64>) -> (r: Vec<u64>)
    ensures
        r@ == ranked(keys@),
{
    let r = sort_range(keys, 0, keys.len());
    proof {
        assert(keys@.subrange(0, keys@.len() as int) =~= keys@);
        lemma_ranked_is(keys@, r@);
    }
    r
}

/// The key at a place of the ascending order; none of no keys.
pub fn key_at(keys: &Vec<u64>, place: usize) -> (r: Option<u64>)
    requires
        keys@.len() > 0 ==> place < keys@.len(),
    ensures
        r == if keys@.len() == 0 {
            None
        } else {
            Some(ranked(keys@)[place as int])
        },
{
    if keys.len() == 0 {
        return None;
    }
    proof {
        lemma_ranked(keys@);
    }
    let sorted = sort_keys(keys);
    Some(sorted[place])
}

/// The upper median; none of no keys.
pub fn median_key(keys: &Vec<u64>) -> (r: Option<u64>)
    ensures
        r == if keys@.len() == 0 {
            None
        } else {
            Some(ranked(keys@)[(keys@.len() / 2) as int])
        },
{
    key_at(keys, keys.len() / 2)
}

/// A statistic at a higher place is no smaller, and each is one of the samples: a
/// tenth percentile is at most the median, and that at most the ninetieth.
pub proof fn law_places_are_ordered(keys: Seq<u64>, i: int, j: int)
    requires
        0 <= i <= j < keys.len(),
    ensures
        ranked(keys)[i] <= ranked(keys)[j],
        keys.contains(ranked(keys)[i]),
{
    lemma_ranked(keys);
    if i < j {
        assert(at_most()(ranked(keys)[i], ranked(keys)[j]));
    }
    ranked(keys).to_multiset_ensures();
    keys.to_multiset_ensures();
    assert(ranked(keys).contains(ranked(keys)[i]));
    assert(ranked(keys).to_multiset().count(ranked(keys)[i]) > 0);
}

/// The statistics do not depend on the order in which the samples came.
pub proof fn law_statistics_ignore_order(a: Seq<u64>, b: Seq<u64>)
    requires
        a.to_multiset() == b.to_multiset(),
    ensures
        ranked(a) == ranked(b),
{
    lemma_ranked(b);
    lemma_ranked_is(a, ranked(b));
}

/// The median is one of the samples, and splits them: in ascending order, which holds
/// each sample as often as it came, those before the middle are no greater than it, and
/// those from the middle on no smaller. Of an even number it is the upper of the two in
/// the middle.
pub proof fn law_median_is_in_the_middle(
    keys: &Vec<u64>,
    sorted: Vec<u64>,
    r: Option<u64>,
    i: int,
    j: int,
)
    requires
        call_ensures(sort_keys, (keys,), sorted),
        call_ensures(median_key, (keys,), r),
        0 <= i <= j < keys@.len(),
    ensures
        sorted@.len() == keys@.len(),
        sorted@.to_multiset() == keys@.to_multiset(),
        sorted@[i] <= sorted@[j],
        r is Some,
        keys@.contains(r->0),
        2 * i <= keys@.len() ==> sorted@[i] <= r->0,
        2 * j + 1 >= keys@.len() ==> r->0 <= sorted@[j],
        2 * i == keys@.len() || 2 * i + 1 == keys@.len() ==> r->0 == sorted@[i],
{
    let middle = (keys@.len() / 2) as int;
    lemma_ranked(keys@);
    law_places_are_ordered(keys@, i, j);
    law_places_are_ordered(keys@, middle, middle);
    if i <= middle {
        law_places_are_ordered(keys@, i, middle);
    }
    if middle <= j {
        law_places_are_ordered(keys@, middle, j);
    }
}

/// A percentile is the sample at its place in ascending order; of no samples there is
/// none.
pub proof fn law_place_is_read_in_order(
    keys: &Vec<u64>,
    place: usize,
    sorted: Vec<u64>,
    r: Option<u64>,
    m: Option<u64>,
)
    requires
        keys@.len() > 0 ==> place < keys@.len(),
        call_ensures(sort_keys, (keys,), sorted),
        call_ensures(key_at, (keys, place), r),
        call_ensures(median_key, (keys,), m),
    ensures
        keys@.len() == 0 ==> r is None && m is None,
        keys@.len() > 0 ==> r == Some(sorted@[place as int]) && m is Some,
{
}

} // verus!
