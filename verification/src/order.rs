//! Sorting by a number.

use vstd::prelude::*;

verus! {

/// Whether place `a` comes before place `b`: by the numbers there, upwards or downwards, and by the
/// place where the numbers are equal.
pub open spec fn comes_before(keys: Seq<u64>, descending: bool, a: int, b: int) -> bool {
    if keys[a] == keys[b] {
        a < b
    } else if descending {
        keys[a] > keys[b]
    } else {
        keys[a] < keys[b]
    }
}

/// Whether `order` lists each place of `keys` once, sorted. There is one such list.
pub open spec fn is_order(keys: Seq<u64>, descending: bool, order: Seq<usize>) -> bool {
    &&& order.len() == keys.len()
    &&& forall|i: int| 0 <= i < order.len() ==> (#[trigger] order[i]) < keys.len()
    &&& forall|i: int, j: int|
        #![trigger order[i], order[j]]
        0 <= i < j < order.len() ==> comes_before(
            keys,
            descending,
            order[i] as int,
            order[j] as int,
        )
}

/// Whether `order` lists each of the first `n` places of `keys` once, sorted.
spec fn sorted_prefix(keys: Seq<u64>, descending: bool, order: Seq<usize>, n: int) -> bool {
    &&& order.len() == n
    &&& forall|i: int| 0 <= i < order.len() ==> (#[trigger] order[i]) < n
    &&& forall|i: int, j: int|
        #![trigger order[i], order[j]]
        0 <= i < j < order.len() ==> comes_before(
            keys,
            descending,
            order[i] as int,
            order[j] as int,
        )
}

fn precedes(a: u64, b: u64, descending: bool) -> (r: bool)
    ensures
        r == if descending {
            a > b
        } else {
            a < b
        },
{
    if descending {
        a > b
    } else {
        a < b
    }
}

/// The places of `keys` in sorted order; equal numbers keep their order.
pub fn sort_places(keys: &Vec<u64>, descending: bool) -> (r: Vec<usize>)
    ensures
        is_order(keys@, descending, r@),
{
    let mut order: Vec<usize> = Vec::new();
    let mut n: usize = 0;
    while n < keys.len()
        invariant
            n <= keys@.len(),
            sorted_prefix(keys@, descending, order@, n as int),
        decreases keys@.len() - n,
    {
        let mut at: usize = order.len();
        while at > 0 && precedes(keys[n], keys[order[at - 1]], descending)
            invariant
                n < keys@.len(),
                at <= order@.len(),
                sorted_prefix(keys@, descending, order@, n as int),
                forall|i: int|
                    at <= i < order@.len() ==> comes_before(
                        keys@,
                        descending,
                        n as int,
                        #[trigger] order@[i] as int,
                    ),
            decreases at,
        {
            at = at - 1;
        }
        let ghost before = order@;
        order.insert(at, n);
        proof {
            let after = order@;
            assert forall|i: int, j: int|
                #![trigger after[i], after[j]]
                0 <= i < j < after.len() implies comes_before(
                keys@,
                descending,
                after[i] as int,
                after[j] as int,
            ) by {
                let bi = if i < at {
                    i
                } else {
                    i - 1
                };
                let bj = if j < at {
                    j
                } else {
                    j - 1
                };
                if i != at {
                    assert(after[i] == before[bi]);
                }
                if j != at {
                    assert(after[j] == before[bj]);
                }
                if i == at {
                    assert(comes_before(keys@, descending, n as int, before[bj] as int));
                } else if j == at {
                    if bi < at - 1 {
                        assert(comes_before(
                            keys@,
                            descending,
                            before[bi] as int,
                            before[at - 1] as int,
                        ));
                    }
                } else {
                    assert(comes_before(
                        keys@,
                        descending,
                        before[bi] as int,
                        before[bj] as int,
                    ));
                }
            }
            assert forall|i: int| 0 <= i < after.len() implies (#[trigger] after[i]) < n + 1 by {
                if i < at {
                    assert(after[i] == before[i]);
                } else if i > at {
                    assert(after[i] == before[i - 1]);
                }
            }
        }
        n = n + 1;
    }
    order
}

/// A sorted list of places lists no place twice, so it lists every place.
pub proof fn order_lists_every_place(keys: Seq<u64>, descending: bool, order: Seq<usize>, p: usize)
    requires
        is_order(keys, descending, order),
        p < keys.len(),
    ensures
        order.no_duplicates(),
        order.contains(p),
{
    assert forall|i: int, j: int|
        0 <= i < order.len() && 0 <= j < order.len() && i != j implies order[i] != order[j] by {
        if i < j {
            assert(comes_before(keys, descending, order[i] as int, order[j] as int));
        } else {
            assert(comes_before(keys, descending, order[j] as int, order[i] as int));
        }
    }
    let places = order.map_values(|x: usize| x as int);
    places.unique_seq_to_set();
    let range = vstd::set_lib::set_int_range(0, keys.len() as int);
    vstd::set_lib::lemma_int_range(0, keys.len() as int);
    assert(places.to_set().subset_of(range)) by {
        assert forall|x: int| places.to_set().contains(x) implies range.contains(x) by {
            let i = choose|i: int| 0 <= i < places.len() && places[i] == x;
            assert(order[i] < keys.len());
        }
    }
    vstd::set_lib::lemma_subset_equality(places.to_set(), range);
    assert(range.contains(p as int));
    let i = choose|i: int| 0 <= i < places.len() && places[i] == p as int;
    assert(order[i] == p);
}

} // verus!
