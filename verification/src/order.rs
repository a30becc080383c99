//! Orders in which the items of a list can be put: lists that name every
//! position of the list exactly once.

use rand::seq::SliceRandom;
use vstd::prelude::*;

verus! {

/// `order` names every position of a list of `len` items exactly once.
pub open spec fn is_permutation(order: Seq<usize>, len: nat) -> bool {
    &&& order.len() == len
    &&& forall|i: int| 0 <= i < order.len() ==> (#[trigger] order[i]) < len
    &&& forall|i: int, j: int| 0 <= i < j < order.len() ==> order[i] != order[j]
}

/// `items` put in the given order: position `i` holds the item that was at
/// `order[i]`.
pub open spec fn reorder<A>(items: Seq<A>, order: Seq<usize>) -> Seq<A> {
    Seq::new(items.len(), |i: int| items[order[i] as int])
}

/// `order` without its last entry, as an order of the list that lacks the
/// item which that entry named.
spec fn without_last(order: Seq<usize>) -> Seq<usize> {
    let gone = order.last();
    Seq::new(
        (order.len() - 1) as nat,
        |i: int|
            if order[i] < gone {
                order[i]
            } else {
                (order[i] - 1) as usize
            },
    )
}

/// A list put in an order that names every position exactly once holds the
/// same items as before, each as often as before.
pub proof fn lemma_reorder_keeps_items<A>(items: Seq<A>, order: Seq<usize>)
    requires
        is_permutation(order, items.len()),
    ensures
        reorder(items, order).len() == items.len(),
        reorder(items, order).to_multiset() == items.to_multiset(),
    decreases items.len(),
{
    broadcast use vstd::multiset::group_multiset_axioms;

    let after = reorder(items, order);
    if items.len() == 0 {
        assert(after =~= items);
    } else {
        let last = items.len() - 1;
        let gone = order[last] as int;
        let rest = items.remove(gone);
        let rest_order = without_last(order);
        assert(is_permutation(rest_order, rest.len())) by {
            assert forall|i: int| 0 <= i < rest_order.len() implies (#[trigger] rest_order[i])
                < rest.len() by {
                assert(order[i] != order[last]);
                assert(order[i] < items.len());
            }
            assert forall|i: int, j: int| 0 <= i < j < rest_order.len() implies rest_order[i]
                != rest_order[j] by {
                assert(order[i] != order[j]);
                assert(order[i] != order[last]);
                assert(order[j] != order[last]);
            }
        }
        assert(reorder(rest, rest_order) =~= after.drop_last()) by {
            assert forall|i: int| 0 <= i < last implies reorder(rest, rest_order)[i]
                == after.drop_last()[i] by {
                assert(order[i] != order[last]);
                assert(order[i] < items.len());
            }
        }
        lemma_reorder_keeps_items(rest, rest_order);
        items.to_multiset_ensures();
        after.drop_last().to_multiset_ensures();
        assert(after =~= after.drop_last().push(items[gone]));
        assert(rest.to_multiset() =~= items.to_multiset().remove(items[gone]));
        assert(items.contains(items[gone]));
        assert(items.to_multiset().count(items[gone]) > 0);
        assert(after.to_multiset() =~= items.to_multiset());
    }
}

/// Whether `order` names every position of a list of `len` items exactly once.
pub fn is_index_permutation(order: &Vec<usize>, len: usize) -> (res: bool)
    ensures
        res == is_permutation(order@, len as nat),
{
    if order.len() != len {
        return false;
    }
    let mut seen: Vec<bool> = Vec::new();
    let mut k: usize = 0;
    while k < len
        invariant
            k <= len,
            seen.len() == k,
            forall|j: int| 0 <= j < k ==> !seen[j],
        decreases len - k,
    {
        seen.push(false);
        k += 1;
    }
    let mut i: usize = 0;
    while i < len
        invariant
            i <= len,
            order.len() == len,
            seen.len() == len,
            forall|j: int| 0 <= j < i ==> (#[trigger] order[j]) < len,
            forall|a: int, b: int| 0 <= a < b < i ==> order[a] != order[b],
            forall|p: int|
                0 <= p < len ==> (#[trigger] seen[p] <==> exists|j: int|
                    0 <= j < i && order[j] == p),
        decreases len - i,
    {
        let target = order[i];
        if target >= len {
            return false;
        }
        if seen[target] {
            let ghost j = choose|j: int| 0 <= j < i && order[j] == target;
            assert(order[j] == order[i as int]);
            return false;
        }
        let ghost before = seen@;
        seen.set(target, true);
        assert forall|p: int| 0 <= p < len implies (#[trigger] seen[p] <==> exists|j: int|
            0 <= j < i + 1 && order[j] == p) by {
            if p == target {
                assert(order[i as int] == p);
            } else {
                assert(seen[p] == before[p]);
                if before[p] {
                    let j = choose|j: int| 0 <= j < i && order[j] == p;
                    assert(0 <= j < i + 1 && order[j] == p);
                }
            }
        }
        i += 1;
    }
    true
}

/// The positions `0, 1, ..` of a list of `len` items, in order.
pub open spec fn identity_seq(len: nat) -> Seq<usize> {
    Seq::new(len, |i: int| i as usize)
}

/// The positions of a list of `len` items, in order.
pub fn identity_order(len: usize) -> (order: Vec<usize>)
    ensures
        order@ == identity_seq(len as nat),
{
    let mut order: Vec<usize> = Vec::new();
    let mut i: usize = 0;
    while i < len
        invariant
            i <= len,
            order.len() == i,
            forall|j: int| 0 <= j < i ==> order[j] == j,
        decreases len - i,
    {
        order.push(i);
        i += 1;
    }
    assert(order@ =~= identity_seq(len as nat));
    order
}

/// Shuffles `order` in place with `rand::seq::SliceRandom::shuffle`, drawing
/// from the generator that `rand::thread_rng` hands out, which the system
/// seeds (and which panics where the system has no randomness to give).
///
/// Trusted: the shuffle only swaps items, so afterwards the list holds the
/// same items as before, each as often as before. Which order comes out is
/// left open.
#[verifier::external_body]
fn shuffle_indices(order: &mut Vec<usize>)
    ensures
        final(order)@.to_multiset() == old(order)@.to_multiset(),
{
    order.shuffle(&mut rand::thread_rng());
}

/// A list that holds the same items as the positions `0, 1, ..` of a list,
/// each as often, names every position exactly once.
proof fn lemma_rearranged_identity(identity: Seq<usize>, order: Seq<usize>)
    requires
        identity == identity_seq(identity.len()),
        identity.len() <= usize::MAX,
        order.to_multiset() == identity.to_multiset(),
    ensures
        is_permutation(order, identity.len()),
{
    order.to_multiset_ensures();
    identity.to_multiset_ensures();
    let len = identity.len();
    assert(order.len() == len);
    assert forall|i: int| 0 <= i < order.len() implies (#[trigger] order[i]) < len by {
        assert(order.contains(order[i]));
        assert(order.to_multiset().count(order[i]) > 0);
        assert(identity.to_multiset().count(order[i]) > 0);
        assert(identity.contains(order[i]));
        let j = choose|j: int| 0 <= j < identity.len() && identity[j] == order[i];
        assert(identity[j] == j);
    }
    assert(identity.no_duplicates());
    identity.lemma_multiset_has_no_duplicates();
    order.lemma_multiset_has_no_duplicates_conv();
}

/// A random order for a list of `len` items.
pub fn random_order(len: usize) -> (order: Vec<usize>)
    ensures
        is_permutation(order@, len as nat),
{
    let mut order = identity_order(len);
    let ghost identity = order@;
    shuffle_indices(&mut order);
    proof {
        lemma_rearranged_identity(identity, order@);
    }
    order
}

} // verus!
