//! The natural order of records and the stable sort that listings use.

use vstd::prelude::*;
use vstd::seq_lib::to_multiset_insert;

verus! {

/// A type whose values have a natural order: a total preorder, in which two
/// different values may rank the same.
pub trait NaturalOrder: Sized {
    /// `self` may stand before `other` in a sorted listing.
    spec fn precedes(&self, other: &Self) -> bool;

    /// Decides [`NaturalOrder::precedes`].
    fn stands_before(&self, other: &Self) -> (r: bool)
        ensures
            r == self.precedes(other),
    ;

    /// Any two values are ordered one way or the other.
    proof fn lemma_total(a: Self, b: Self)
        ensures
            a.precedes(&b) || b.precedes(&a),
    ;

    /// The order is transitive.
    proof fn lemma_transitive(a: Self, b: Self, c: Self)
        requires
            a.precedes(&b),
            b.precedes(&c),
        ensures
            a.precedes(&c),
    ;
}

/// `a` and `b` rank the same.
pub open spec fn same_rank<T: NaturalOrder>(a: T, b: T) -> bool {
    a.precedes(&b) && b.precedes(&a)
}

/// Every item of `s` may stand before every later one.
pub open spec fn is_sorted<T: NaturalOrder>(s: Seq<T>) -> bool {
    forall|i: int, j: int| #![trigger s[i], s[j]] 0 <= i <= j < s.len() ==> s[i].precedes(&s[j])
}

/// The items of `s` that rank the same as `rep`, in the order they have in `s`.
pub open spec fn rank_class<T: NaturalOrder>(s: Seq<T>, rep: T) -> Seq<T>
    decreases s.len(),
{
    if s.len() == 0 {
        Seq::empty()
    } else if same_rank(rep, s.last()) {
        rank_class(s.drop_last(), rep).push(s.last())
    } else {
        rank_class(s.drop_last(), rep)
    }
}

/// `out` holds the items of `input` in natural order, and items that rank the
/// same keep the order they had in `input`.
pub open spec fn is_stable_sort_of<T: NaturalOrder>(out: Seq<T>, input: Seq<T>) -> bool {
    &&& is_sorted(out)
    &&& out.to_multiset() == input.to_multiset()
    &&& forall|rep: T| #[trigger] rank_class(out, rep) == rank_class(input, rep)
}

/// The class of a concatenation is the concatenation of the classes.
pub proof fn lemma_rank_class_concat<T: NaturalOrder>(a: Seq<T>, b: Seq<T>, rep: T)
    ensures
        rank_class(a + b, rep) == rank_class(a, rep) + rank_class(b, rep),
    decreases b.len(),
{
    if b.len() == 0 {
        assert(a + b =~= a);
        assert(rank_class(a, rep) + rank_class(b, rep) =~= rank_class(a, rep));
    } else {
        assert((a + b).drop_last() =~= a + b.drop_last());
        assert((a + b).last() == b.last());
        lemma_rank_class_concat(a, b.drop_last(), rep);
        if same_rank(rep, b.last()) {
            assert(rank_class(a, rep) + rank_class(b, rep) =~= (rank_class(a, rep) + rank_class(
                b.drop_last(),
                rep,
            )).push(b.last()));
        }
    }
}

/// A sequence without an item of `rep`'s rank has an empty class for it.
pub proof fn lemma_rank_class_none<T: NaturalOrder>(s: Seq<T>, rep: T)
    requires
        forall|j: int| 0 <= j < s.len() ==> !same_rank(rep, #[trigger] s[j]),
    ensures
        rank_class(s, rep) == Seq::<T>::empty(),
    decreases s.len(),
{
    if s.len() > 0 {
        assert(!same_rank(rep, s[s.len() - 1]));
        assert forall|j: int| 0 <= j < s.drop_last().len() implies !same_rank(
            rep,
            #[trigger] s.drop_last()[j],
        ) by {
            assert(s.drop_last()[j] == s[j]);
        }
        lemma_rank_class_none(s.drop_last(), rep);
    }
}

/// The class of a single item.
pub proof fn lemma_rank_class_one<T: NaturalOrder>(x: T, rep: T)
    ensures
        rank_class(seq![x], rep) == if same_rank(rep, x) {
            seq![x]
        } else {
            Seq::<T>::empty()
        },
{
    let s = seq![x];
    assert(s.drop_last() =~= Seq::<T>::empty());
    assert(s.last() == x);
    assert(rank_class(s.drop_last(), rep) =~= Seq::<T>::empty());
    if same_rank(rep, x) {
        assert(Seq::<T>::empty().push(x) =~= seq![x]);
    }
}

/// Putting `x` at position `k` of a sorted sequence keeps it a stable sort,
/// where everything before `k` ranks strictly below `x` and `x` may stand
/// before what is at `k`.
proof fn lemma_insert_keeps_stable_sort<T: NaturalOrder>(
    out: Seq<T>,
    rest: Seq<T>,
    x: T,
    k: int,
)
    requires
        is_stable_sort_of(out, rest),
        0 <= k <= out.len(),
        forall|j: int| #![trigger out[j]] 0 <= j < k ==> !x.precedes(&out[j]),
        k < out.len() ==> x.precedes(&out[k]),
    ensures
        is_stable_sort_of(out.insert(k, x), seq![x] + rest),
{
    let new = out.insert(k, x);
    let input = seq![x] + rest;
    assert forall|i: int, j: int| #![trigger new[i], new[j]] 0 <= i <= j < new.len() implies new[i].precedes(
        &new[j],
    ) by {
        if i == j {
            T::lemma_total(new[i], new[i]);
        } else if j < k {
            assert(new[i] == out[i] && new[j] == out[j]);
        } else if j == k {
            assert(new[i] == out[i]);
            T::lemma_total(x, out[i]);
        } else if i < k {
            assert(new[i] == out[i] && new[j] == out[j - 1]);
        } else if i == k {
            assert(new[j] == out[j - 1]);
            assert(out[k].precedes(&out[j - 1]));
            T::lemma_transitive(x, out[k], out[j - 1]);
        } else {
            assert(new[i] == out[i - 1] && new[j] == out[j - 1]);
        }
    }
    assert(new.to_multiset() == input.to_multiset()) by {
        to_multiset_insert(out, k, x);
        assert(input =~= rest.insert(0, x));
        to_multiset_insert(rest, 0, x);
    }
    assert forall|rep: T| #[trigger] rank_class(new, rep) == rank_class(input, rep) by {
        let head = out.take(k);
        let tail = out.skip(k);
        assert(new =~= (head + seq![x]) + tail);
        assert(out =~= head + tail);
        lemma_rank_class_concat(head + seq![x], tail, rep);
        lemma_rank_class_concat(head, seq![x], rep);
        lemma_rank_class_concat(head, tail, rep);
        lemma_rank_class_concat(seq![x], rest, rep);
        lemma_rank_class_one(x, rep);
        assert(rank_class(out, rep) == rank_class(rest, rep));
        if same_rank(rep, x) {
            assert forall|j: int| 0 <= j < head.len() implies !same_rank(
                rep,
                #[trigger] head[j],
            ) by {
                assert(head[j] == out[j]);
                if same_rank(rep, head[j]) {
                    T::lemma_transitive(x, rep, head[j]);
                }
            }
            lemma_rank_class_none(head, rep);
            assert(rank_class(new, rep) =~= seq![x] + rank_class(tail, rep));
            assert(rank_class(out, rep) =~= rank_class(tail, rep));
        } else {
            assert(rank_class(new, rep) =~= rank_class(head, rep) + rank_class(tail, rep));
            assert(rank_class(input, rep) =~= rank_class(rest, rep));
        }
    }
}

/// Sorts `items` into natural order, keeping items of the same rank in the
/// order in which they came.
pub fn sort_naturally<T: NaturalOrder>(items: Vec<T>) -> (sorted: Vec<T>)
    ensures
        is_stable_sort_of(sorted@, items@),
        sorted@.len() == items@.len(),
{
    let ghost given = items@;
    let mut items = items;
    let mut out: Vec<T> = Vec::new();
    proof {
        assert(given.skip(given.len() as int) =~= Seq::<T>::empty());
        assert(out@.to_multiset() =~= Seq::<T>::empty().to_multiset());
    }
    while items.len() > 0
        invariant
            items@.len() <= given.len(),
            items@ == given.take(items@.len() as int),
            is_stable_sort_of(out@, given.skip(items@.len() as int)),
            out@.len() + items@.len() == given.len(),
        decreases items@.len(),
    {
        let ghost n = items@.len() as int;
        let x = items.pop().unwrap();
        assert(x == given[n - 1]);
        let mut k: usize = 0;
        while k < out.len() && !x.stands_before(&out[k])
            invariant
                k <= out@.len(),
                forall|j: int| #![trigger out@[j]] 0 <= j < k ==> !x.precedes(&out@[j]),
            decreases out@.len() - k,
        {
            k = k + 1;
        }
        proof {
            lemma_insert_keeps_stable_sort(out@, given.skip(n), x, k as int);
            assert(seq![x] + given.skip(n) =~= given.skip(n - 1));
            assert(items@ =~= given.take(n - 1));
        }
        out.insert(k, x);
    }
    proof {
        assert(given.skip(0) =~= given);
    }
    out
}

/// A stable sort is as long as its input.
pub proof fn lemma_stable_sort_len<T: NaturalOrder>(out: Seq<T>, input: Seq<T>)
    requires
        is_stable_sort_of(out, input),
    ensures
        out.len() == input.len(),
{
    out.to_multiset_ensures();
    input.to_multiset_ensures();
}

} // verus!
