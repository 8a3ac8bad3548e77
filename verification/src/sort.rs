//! Sorting by an integer key.

use vstd::multiset::Multiset;
use vstd::prelude::*;

verus! {

/// A value that lists are sorted by.
pub trait Keyed {
    /// The key.
    spec fn key_spec(&self) -> int;

    /// The key.
    fn key(&self) -> (r: i128)
        ensures
            r == self.key_spec(),
    ;
}

/// Whether the keys of a list do not decrease.
pub open spec fn sorted<T: Keyed>(list: Seq<T>) -> bool {
    forall|i: int, j: int|
        0 <= i <= j < list.len() ==> (#[trigger] list[i]).key_spec() <= (
        #[trigger] list[j]).key_spec()
}

/// Whether the keys of a list do not increase.
spec fn falling<T: Keyed>(list: Seq<T>) -> bool {
    forall|i: int, j: int|
        0 <= i <= j < list.len() ==> (#[trigger] list[i]).key_spec() >= (
        #[trigger] list[j]).key_spec()
}

/// Whether each key of `low` is at most each key of `high`.
spec fn below<T: Keyed>(low: Seq<T>, high: Seq<T>) -> bool {
    forall|i: int, j: int|
        0 <= i < low.len() && 0 <= j < high.len() ==> (#[trigger] low[i]).key_spec() <= (
        #[trigger] high[j]).key_spec()
}

proof fn lemma_pop<T>(s: Seq<T>)
    requires
        s.len() > 0,
    ensures
        s.to_multiset() == s.drop_last().to_multiset().insert(s.last()),
{
    broadcast use vstd::seq_lib::group_to_multiset_ensures;

    assert(s =~= s.drop_last().push(s.last()));
}

/// Moves all of `from`, last item first, to the end of `to`.
fn drain_reversed<T: Keyed>(from: Vec<T>, to: &mut Vec<T>)
    requires
        sorted(from@),
        falling(old(to)@),
        below(from@, old(to)@),
    ensures
        falling(final(to)@),
        final(to)@.to_multiset() == old(to)@.to_multiset().add(from@.to_multiset()),
{
    let mut from = from;
    let ghost all = from@.to_multiset().add(to@.to_multiset());
    while from.len() > 0
        invariant
            sorted(from@),
            falling(to@),
            below(from@, to@),
            from@.to_multiset().add(to@.to_multiset()) == all,
        decreases from@.len(),
    {
        broadcast use vstd::seq_lib::group_to_multiset_ensures;

        let ghost from_before = from@;
        let ghost to_before = to@;
        if let Some(item) = from.pop() {
            proof {
                lemma_pop(from_before);
                assert(from@ == from_before.drop_last());
                assert(item == from_before.last());
            }
            to.push(item);
            assert(to@ == to_before.push(item));
            assert(from@.to_multiset().add(to@.to_multiset()) =~= all);
        }
    }
    proof {
        assert(from@.to_multiset() =~= Multiset::empty()) by {
            broadcast use vstd::seq_lib::group_to_multiset_ensures;

            assert(from@.to_multiset().len() == 0);
        }
        assert(to@.to_multiset() =~= all);
    }
}

/// The items of a list in reverse order.
fn reversed<T>(list: Vec<T>) -> (r: Vec<T>)
    ensures
        r@ == list@.reverse(),
{
    let ghost all = list@;
    let mut list = list;
    let mut r: Vec<T> = Vec::new();
    while list.len() > 0
        invariant
            list@.len() <= all.len(),
            list@ == all.take(list@.len() as int),
            r@ == all.skip(list@.len() as int).reverse(),
        decreases list@.len(),
    {
        let ghost n = list@.len() as int;
        if let Some(item) = list.pop() {
            r.push(item);
            assert(list@ =~= all.take(n - 1));
            assert(r@ =~= all.skip(n - 1).reverse());
        }
    }
    assert(all.skip(0) =~= all);
    r
}

/// Merges two sorted lists.
fn merge<T: Keyed>(a: Vec<T>, b: Vec<T>) -> (r: Vec<T>)
    requires
        sorted(a@),
        sorted(b@),
    ensures
        sorted(r@),
        r@.to_multiset() == a@.to_multiset().add(b@.to_multiset()),
{
    let ghost all = a@.to_multiset().add(b@.to_multiset());
    let mut a = a;
    let mut b = b;
    let mut out: Vec<T> = Vec::new();
    assert(out@.to_multiset() =~= Multiset::empty()) by {
        broadcast use vstd::seq_lib::group_to_multiset_ensures;

        assert(out@.to_multiset().len() == 0);
    }
    while a.len() > 0 && b.len() > 0
        invariant
            sorted(a@),
            sorted(b@),
            falling(out@),
            below(a@, out@),
            below(b@, out@),
            a@.to_multiset().add(b@.to_multiset()).add(out@.to_multiset()) =~= all,
        decreases a@.len() + b@.len(),
    {
        broadcast use vstd::seq_lib::group_to_multiset_ensures;

        let ghost a0 = a@;
        let ghost b0 = b@;
        let ghost out0 = out@;
        let take_a = a[a.len() - 1].key() > b[b.len() - 1].key();
        let popped = if take_a {
            a.pop()
        } else {
            b.pop()
        };
        if let Some(item) = popped {
            proof {
                lemma_pop(a0);
                lemma_pop(b0);
            }
            out.push(item);
            assert(out@ == out0.push(item));
            assert(a@.to_multiset().add(b@.to_multiset()).add(out@.to_multiset()) =~= all);
        }
    }
    let ghost mid = out@.to_multiset();
    let ghost a1 = a@;
    let ghost b1 = b@;
    let a_left = a.len() > 0;
    proof {
        broadcast use vstd::seq_lib::group_to_multiset_ensures;

        assert(a1.len() == 0 ==> a1.to_multiset() =~= Multiset::empty());
        assert(b1.len() == 0 ==> b1.to_multiset() =~= Multiset::empty());
    }
    if a_left {
        drain_reversed(a, &mut out);
    } else {
        drain_reversed(b, &mut out);
    }
    assert(out@.to_multiset() =~= all);
    let ghost fallen = out@;
    let r = reversed(out);
    proof {
        fallen.lemma_reverse_to_multiset();
        assert forall|i: int, j: int| 0 <= i <= j < r@.len() implies (#[trigger] r@[i]).key_spec()
            <= (#[trigger] r@[j]).key_spec() by {
            assert(r@[i] == fallen[fallen.len() - 1 - i]);
            assert(r@[j] == fallen[fallen.len() - 1 - j]);
        }
    }
    r
}

/// The items of a list, sorted by their keys.
pub fn sort_by_key<T: Keyed>(list: Vec<T>) -> (r: Vec<T>)
    ensures
        sorted(r@),
        r@.to_multiset() == list@.to_multiset(),
    decreases list@.len(),
{
    if list.len() < 2 {
        return list;
    }
    let ghost all = list@;
    let mid: usize = list.len() / 2;
    let mut left = list;
    let right = left.split_off(mid);
    proof {
        vstd::seq_lib::lemma_multiset_commutative(left@, right@);
        assert(left@ + right@ =~= all);
    }
    let a = sort_by_key(left);
    let b = sort_by_key(right);
    merge(a, b)
}

/// A list with the items of another has the same length and the same members.
pub proof fn same_items<T>(a: Seq<T>, b: Seq<T>)
    requires
        a.to_multiset() == b.to_multiset(),
    ensures
        a.len() == b.len(),
        forall|x: T| a.contains(x) <==> b.contains(x),
{
    broadcast use vstd::seq_lib::group_to_multiset_ensures;

    assert(a.len() == a.to_multiset().len());
    assert(b.len() == b.to_multiset().len());
    assert forall|x: T| a.contains(x) <==> b.contains(x) by {
        assert(a.contains(x) <==> a.to_multiset().count(x) > 0);
        assert(b.contains(x) <==> b.to_multiset().count(x) > 0);
    }
}

/// In a sorted list no item has a greater key than one behind it.
pub proof fn sorted_lists_rise<T: Keyed>(list: Seq<T>, i: int, j: int)
    requires
        sorted(list),
        0 <= i <= j < list.len(),
    ensures
        list[i].key_spec() <= list[j].key_spec(),
{
}

} // verus!
