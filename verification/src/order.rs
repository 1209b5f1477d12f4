//! A stable ordering of list positions by an integer key.
use vstd::prelude::*;
use vstd::relations::{sorted_by, total_ordering};
use vstd::seq_lib::lemma_sorted_unique;

verus! {

/// Position `i` comes no later than position `j`: a smaller key first, and
/// among equal keys the position that came first stays first.
pub open spec fn before(keys: Seq<i128>, i: usize, j: usize) -> bool {
    keys[i as int] < keys[j as int] || (keys[i as int] == keys[j as int] && i <= j)
}

/// The positions in `picked`, in order of their keys, ties in list order.
pub open spec fn in_key_order(keys: Seq<i128>, picked: Seq<usize>) -> Seq<usize> {
    picked.sort_by(|i: usize, j: usize| before(keys, i, j))
}

/// `before` is a total order on positions.
pub proof fn lemma_before_is_total(keys: Seq<i128>)
    ensures
        total_ordering(|i: usize, j: usize| before(keys, i, j)),
{
}

/// The ordering keeps exactly the positions it was given, each key no larger
/// than the next one's.
pub proof fn lemma_in_key_order(keys: Seq<i128>, picked: Seq<usize>)
    ensures
        in_key_order(keys, picked).to_multiset() == picked.to_multiset(),
        in_key_order(keys, picked).len() == picked.len(),
        forall|x: usize| in_key_order(keys, picked).contains(x) <==> picked.contains(x),
        forall|m: int, n: int|
            0 <= m < n < in_key_order(keys, picked).len() ==> before(
                keys,
                #[trigger] in_key_order(keys, picked)[m],
                #[trigger] in_key_order(keys, picked)[n],
            ),
{
    let leq = |i: usize, j: usize| before(keys, i, j);
    lemma_before_is_total(keys);
    picked.lemma_sort_by_ensures(leq);
    let s = in_key_order(keys, picked);
    picked.to_multiset_ensures();
    s.to_multiset_ensures();
    assert forall|x: usize| s.contains(x) <==> picked.contains(x) by {
        assert(s.contains(x) <==> s.to_multiset().count(x) > 0);
        assert(picked.contains(x) <==> picked.to_multiset().count(x) > 0);
    }
    assert(sorted_by(s, leq));
    assert forall|m: int, n: int| 0 <= m < n < s.len() implies before(
        keys,
        #[trigger] s[m],
        #[trigger] s[n],
    ) by {
        assert(leq(s[m], s[n]));
    }
}

/// Sorts list positions by their keys; equal keys keep their list order.
pub fn sort_positions(keys: &Vec<i128>, picked: &Vec<usize>) -> (sorted: Vec<usize>)
    requires
        forall|n: int| 0 <= n < picked.len() ==> #[trigger] picked[n] < keys.len(),
    ensures
        sorted@ == in_key_order(keys@, picked@),
{
    let ghost leq = |i: usize, j: usize| before(keys@, i, j);
    let mut sorted: Vec<usize> = Vec::new();
    let mut n: usize = 0;
    proof {
        lemma_before_is_total(keys@);
        assert(picked@.take(0) =~= Seq::<usize>::empty());
    }
    while n < picked.len()
        invariant
            n <= picked.len(),
            forall|m: int| 0 <= m < picked.len() ==> #[trigger] picked[m] < keys.len(),
            sorted.len() == n,
            forall|m: int| 0 <= m < sorted.len() ==> #[trigger] sorted[m] < keys.len(),
            leq == (|i: usize, j: usize| before(keys@, i, j)),
            total_ordering(leq),
            sorted_by(sorted@, leq),
            sorted@.to_multiset() == picked@.take(n as int).to_multiset(),
        decreases picked.len() - n,
    {
        let item: usize = picked[n];
        let mut at: usize = sorted.len();
        while at > 0 && !(keys[sorted[at - 1]] < keys[item] || (keys[sorted[at - 1]] == keys[item]
            && sorted[at - 1] <= item))
            invariant
                at <= sorted.len(),
                item < keys.len(),
                forall|m: int| 0 <= m < sorted.len() ==> #[trigger] sorted[m] < keys.len(),
                forall|m: int| at <= m < sorted.len() ==> before(keys@, item, #[trigger] sorted[m]),
            decreases at,
        {
            at = at - 1;
        }
        let ghost earlier = sorted@;
        sorted.insert(at, item);
        proof {
            earlier.to_multiset_ensures();
            lemma_insert_multiset(earlier, at as int, item);
            assert(picked@.take(n + 1) =~= picked@.take(n as int).push(item));
            picked@.take(n as int).to_multiset_ensures();
            assert forall|a: int, b: int| 0 <= a < b < sorted@.len() implies #[trigger] leq(
                sorted@[a],
                sorted@[b],
            ) by {
                let ga = if a < at { a } else { a - 1 };
                let gb = if b < at { b } else { b - 1 };
                if a != at && b != at {
                    assert(leq(earlier[ga], earlier[gb]));
                } else if b == at {
                    assert(leq(earlier[at - 1], item));
                    if a < at - 1 {
                        assert(leq(earlier[a], earlier[at - 1]));
                    }
                } else {
                    assert(before(keys@, item, earlier[gb]));
                }
            }
        }
        n = n + 1;
    }
    proof {
        assert(picked@.take(n as int) =~= picked@);
        picked@.lemma_sort_by_ensures(leq);
        lemma_sorted_unique(sorted@, picked@.sort_by(leq), leq);
    }
    sorted
}

/// Inserting into a sequence adds exactly the inserted element.
proof fn lemma_insert_multiset<A>(s: Seq<A>, at: int, a: A)
    requires
        0 <= at <= s.len(),
    ensures
        s.insert(at, a).to_multiset() == s.to_multiset().insert(a),
{
    let t = s.insert(at, a);
    t.to_multiset_ensures();
    assert(t.remove(at) =~= s);
    assert(t.remove(at).to_multiset() =~= t.to_multiset().remove(t[at]));
    assert(t.contains(t[at]));
    assert(t.to_multiset().count(a) > 0);
    assert(s.to_multiset().insert(a) =~= t.to_multiset());
}

/// Sorting loses no position and adds none; of two positions the one with the smaller
/// key comes first, and of two with the same key the one that came first.
pub proof fn law_sorting_only_reorders(keys: Seq<i128>, picked: Seq<usize>, m: int, n: int)
    requires
        0 <= m < n < picked.len(),
    ensures
        ({
            let sorted = in_key_order(keys, picked);
            &&& sorted.len() == picked.len()
            &&& sorted.to_multiset() == picked.to_multiset()
            &&& keys[sorted[m] as int] <= keys[sorted[n] as int]
            &&& keys[sorted[m] as int] == keys[sorted[n] as int] ==> sorted[m] <= sorted[n]
        }),
{
    lemma_in_key_order(keys, picked);
    let sorted = in_key_order(keys, picked);
    assert(before(keys, sorted[m], sorted[n]));
}

} // verus!
