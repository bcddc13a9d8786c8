//! Stable ordering of event lists by a total preorder on their sort keys.
use vstd::prelude::*;

verus! {

/// A total preorder on a type, decided at run time by `precedes_or_ties`.
pub trait KeyOrder: Sized {
    /// `self` sorts before `other` or ties with it.
    spec fn key_le(self, other: Self) -> bool;

    proof fn lemma_key_le_total(a: Self, b: Self)
        ensures
            a.key_le(b) || b.key_le(a),
    ;

    proof fn lemma_key_le_transitive(a: Self, b: Self, c: Self)
        requires
            a.key_le(b),
            b.key_le(c),
        ensures
            a.key_le(c),
    ;

    /// Run-time decision of `key_le`.
    fn precedes_or_ties(&self, other: &Self) -> (r: bool)
        ensures
            r == self.key_le(*other),
    ;
}

/// Every element sorts before or ties with every later element.
pub open spec fn sorted_by_key<T: KeyOrder>(s: Seq<T>) -> bool {
    forall|i: int, j: int| 0 <= i < j < s.len() ==> #[trigger] s[i].key_le(#[trigger] s[j])
}

/// `a` and `b` tie: each sorts before or ties with the other.
pub open spec fn key_ties<T: KeyOrder>(a: T, b: T) -> bool {
    a.key_le(b) && b.key_le(a)
}

/// The elements of `s` that tie with `x`, in their order in `s`.
pub open spec fn ties_of<T: KeyOrder>(s: Seq<T>, x: T) -> Seq<T> {
    s.filter(|y: T| key_ties(x, y))
}

/// Inserting `e` before every element it sorts before or ties with (that
/// is, after every element it sorts strictly after) puts it first among the
/// elements that tie with it.
proof fn lemma_insert_keeps_ties<T: KeyOrder>(old_out: Seq<T>, j: int, e: T, rest: Seq<T>, x: T)
    requires
        0 <= j <= old_out.len(),
        forall|k: int| 0 <= k < j ==> !e.key_le(#[trigger] old_out[k]),
        ties_of(old_out, x) == ties_of(rest, x),
    ensures
        ties_of(old_out.insert(j, e), x) == ties_of(seq![e] + rest, x),
{
    broadcast use vstd::seq_lib::group_seq_properties;

    let pred = |y: T| key_ties(x, y);
    let left = old_out.subrange(0, j);
    let right = old_out.subrange(j, old_out.len() as int);
    assert(old_out == left + right);
    assert(old_out.insert(j, e) == left + (seq![e] + right));
    Seq::filter_distributes_over_add(left, right, pred);
    Seq::filter_distributes_over_add(left, seq![e] + right, pred);
    right.lemma_filter_prepend(e, pred);
    rest.lemma_filter_prepend(e, pred);
    if key_ties(x, e) {
        assert forall|k: int| 0 <= k < left.len() implies !pred(#[trigger] left[k]) by {
            assert(left[k] == old_out[k]);
            if pred(left[k]) {
                T::lemma_key_le_transitive(e, x, left[k]);
            }
        }
        left.lemma_all_neg_filter_empty(pred);
        assert(left.filter(pred) =~= Seq::<T>::empty());
    }
}

/// Sorts `items` by key. The result is ordered and holds the same elements
/// as `items`, each as often; elements that tie keep their relative order.
pub fn sort_by_key<T: KeyOrder>(items: Vec<T>) -> (sorted: Vec<T>)
    ensures
        sorted_by_key(sorted@),
        sorted@.to_multiset() == items@.to_multiset(),
        forall|x: T| #[trigger] ties_of(sorted@, x) == ties_of(items@, x),
{
    broadcast use vstd::seq_lib::group_to_multiset_ensures;

    let ghost all = items@;
    let mut source = items;
    let mut out: Vec<T> = Vec::new();
    proof {
        assert forall|x: T| #[trigger] ties_of(out@, x) == ties_of(all.skip(source@.len() as int), x) by {
            assert(all.skip(source@.len() as int) =~= Seq::<T>::empty());
            assert(out@ =~= Seq::<T>::empty());
        }
    }
    while source.len() > 0
        invariant
            sorted_by_key(out@),
            out@.to_multiset().add(source@.to_multiset()) == all.to_multiset(),
            source@.len() <= all.len(),
            source@ == all.take(source@.len() as int),
            forall|x: T| #[trigger] ties_of(out@, x) == ties_of(all.skip(source@.len() as int), x),
        decreases source.len(),
    {
        let ghost before = source@;
        let e = source.pop().unwrap();
        assert(before == source@.push(e));
        assert(source@ == all.take(source@.len() as int));
        assert(all.skip(source@.len() as int) == seq![e] + all.skip(before.len() as int));
        // first position whose element `e` precedes or ties with
        let mut j: usize = 0;
        let mut found = false;
        while !found && j < out.len()
            invariant
                j <= out.len(),
                forall|k: int| 0 <= k < j ==> !e.key_le(#[trigger] out@[k]),
                found ==> j < out.len() && e.key_le(out@[j as int]),
            decreases out.len() - j + if found { 0int } else { 1int },
        {
            if e.precedes_or_ties(&out[j]) {
                found = true;
            } else {
                j = j + 1;
            }
        }
        let ghost old_out = out@;
        out.insert(j, e);
        proof {
            assert forall|x: T| #[trigger] ties_of(out@, x) == ties_of(
                all.skip(source@.len() as int),
                x,
            ) by {
                lemma_insert_keeps_ties(old_out, j as int, e, all.skip(before.len() as int), x);
            }
            old_out.insert_ensures(j as int, e);
            assert forall|a: int, b: int| 0 <= a < b < out@.len() implies #[trigger] out@[a].key_le(
                #[trigger] out@[b],
            ) by {
                if b < j {
                    assert(out@[a] == old_out[a] && out@[b] == old_out[b]);
                } else if b == j {
                    assert(out@[a] == old_out[a]);
                    assert(!e.key_le(old_out[a]));
                    T::lemma_key_le_total(e, old_out[a]);
                } else if a == j {
                    assert(out@[b] == old_out[b - 1]);
                    if b - 1 > j {
                        assert(old_out[j as int].key_le(old_out[b - 1]));
                        T::lemma_key_le_transitive(e, old_out[j as int], old_out[b - 1]);
                    }
                } else if a < j {
                    assert(out@[a] == old_out[a] && out@[b] == old_out[b - 1]);
                } else {
                    assert(out@[a] == old_out[a - 1] && out@[b] == old_out[b - 1]);
                }
            }
            let left = old_out.subrange(0, j as int);
            let right = old_out.subrange(j as int, old_out.len() as int);
            assert(old_out == left + right);
            assert(out@ == left.push(e) + right);
            vstd::seq_lib::lemma_multiset_commutative(left, right);
            vstd::seq_lib::lemma_multiset_commutative(left.push(e), right);
            left.to_multiset_ensures();
            source@.to_multiset_ensures();
            assert(left.push(e).to_multiset() =~= left.to_multiset().insert(e));
            assert((left.push(e) + right).to_multiset() =~= left.push(e).to_multiset().add(
                right.to_multiset(),
            ));
            assert((left + right).to_multiset() =~= left.to_multiset().add(right.to_multiset()));
            assert(out@.to_multiset() =~= old_out.to_multiset().insert(e));
            assert(source@.push(e).to_multiset() =~= source@.to_multiset().insert(e));
            assert(before.to_multiset() =~= source@.to_multiset().insert(e));
            assert(out@.to_multiset().add(source@.to_multiset()) =~= old_out.to_multiset().add(
                before.to_multiset(),
            ));
        }
    }
    assert(all.skip(0) == all);
    out
}

} // verus!
