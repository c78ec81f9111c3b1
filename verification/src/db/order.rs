//! Putting rows in order.

use vstd::prelude::*;

verus! {

/// Whether the key `a` comes before `b`: by the first number, and by the
/// second where the first is the same.
pub open spec fn key_before(a: (i64, i64), b: (i64, i64)) -> bool {
    a.0 < b.0 || (a.0 == b.0 && a.1 < b.1)
}

/// Whether `order` lists the positions of `keys`, each once, in ascending
/// order of keys; positions with the same key stay in their order.
pub open spec fn is_order(order: Seq<usize>, keys: Seq<(i64, i64)>) -> bool {
    &&& order.len() == keys.len()
    &&& forall|i: int| 0 <= i < order.len() ==> (#[trigger] order[i]) < keys.len()
    &&& forall|i: int, j: int|
        0 <= i < j < order.len() ==> in_turn(keys, #[trigger] order[i], #[trigger] order[j])
}

/// Whether position `a` belongs before position `b`.
pub open spec fn in_turn(keys: Seq<(i64, i64)>, a: usize, b: usize) -> bool {
    key_before(keys[a as int], keys[b as int]) || (keys[a as int] == keys[b as int] && a < b)
}

/// The rows at the positions `order`.
pub open spec fn picked<T>(rows: Seq<T>, order: Seq<usize>) -> Seq<T> {
    order.map_values(|p: usize| rows[p as int])
}

fn comes_before(a: (i64, i64), b: (i64, i64)) -> (r: bool)
    ensures
        r == key_before(a, b),
{
    a.0 < b.0 || (a.0 == b.0 && a.1 < b.1)
}

/// The positions of `keys` in ascending order of keys.
pub fn ascending_order(keys: &[(i64, i64)]) -> (r: Vec<usize>)
    ensures
        is_order(r@, keys@),
{
    let mut order: Vec<usize> = Vec::new();
    for n in 0..keys.len()
        invariant
            is_order(order@, keys@.take(n as int)),
    {
        let ghost before = order@;
        let mut at: usize = order.len();
        while at > 0 && comes_before(keys[n], keys[order[at - 1]])
            invariant
                n < keys@.len(),
                order@ == before,
                is_order(before, keys@.take(n as int)),
                at <= order@.len(),
                forall|j: int|
                    at <= j < order@.len() ==> key_before(
                        keys@[n as int],
                        keys@[#[trigger] order@[j] as int],
                    ),
            decreases at,
        {
            at -= 1;
        }
        order.insert(at, n);
        proof {
            let more = keys@.take(n + 1);
            let less = keys@.take(n as int);
            assert(order@ =~= before.insert(at as int, n));
            assert forall|i: int| 0 <= i < order@.len() implies (#[trigger] order@[i])
                < more.len() by {
                if i < at {
                    assert(order@[i] == before[i]);
                } else if i > at {
                    assert(order@[i] == before[i - 1]);
                }
            }
            assert forall|i: int, j: int| 0 <= i < j < order@.len() implies in_turn(
                more,
                #[trigger] order@[i],
                #[trigger] order@[j],
            ) by {
                let x = if i < at {
                    before[i]
                } else if i > at {
                    before[i - 1]
                } else {
                    n
                };
                let y = if j < at {
                    before[j]
                } else if j > at {
                    before[j - 1]
                } else {
                    n
                };
                assert(order@[i] == x);
                assert(order@[j] == y);
                if i != at && j != at {
                    let a = if i < at {
                        i
                    } else {
                        i - 1
                    };
                    let b = if j < at {
                        j
                    } else {
                        j - 1
                    };
                    assert(in_turn(less, before[a], before[b]));
                } else if j == at {
                    // The last one before the gap does not come after the new one.
                    let last = before[at - 1];
                    assert(!key_before(keys@[n as int], keys@[last as int]));
                    if i < at - 1 {
                        assert(in_turn(less, before[i], last));
                    }
                } else {
                    assert(key_before(keys@[n as int], keys@[before[j - 1] as int]));
                }
            }
        }
    }
    assert(keys@.take(keys@.len() as int) =~= keys@);
    order
}

/// An order leaves no position out.
pub proof fn lemma_order_covers(order: Seq<usize>, keys: Seq<(i64, i64)>, p: int)
    requires
        is_order(order, keys),
        0 <= p < keys.len(),
    ensures
        exists|i: int| 0 <= i < order.len() && #[trigger] order[i] == p,
{
    let positions = order.map_values(|x: usize| x as int);
    assert(positions.no_duplicates()) by {
        assert forall|i: int, j: int| 0 <= i < j < positions.len() implies positions[i]
            != positions[j] by {
            assert(in_turn(keys, order[i], order[j]));
        }
    }
    positions.unique_seq_to_set();
    let all = vstd::set_lib::set_int_range(0, keys.len() as int);
    vstd::set_lib::lemma_int_range(0, keys.len() as int);
    assert(positions.to_set().subset_of(all)) by {
        assert forall|x: int| positions.to_set().contains(x) implies all.contains(x) by {
            let i = positions.index_of(x);
            assert(positions[i] == x);
            assert(order[i] < keys.len());
        }
    }
    vstd::set_lib::lemma_subset_equality(positions.to_set(), all);
    assert(positions.to_set().contains(p));
    let i = positions.index_of(p);
    assert(positions[i] == p);
    assert(order[i] == p);
}

} // verus!
