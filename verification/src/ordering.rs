//! Stable insertion sort, specified as a recursive function on sequences,
//! with lemmas for sortedness, permutation and stability under any total,
//! transitive comparison.
use vstd::prelude::*;

verus! {

/// `x` inserted into `s` after every element at most `x`: equal elements keep
/// their place before `x`, which makes the sort stable.
pub open spec fn insert_le<A>(le: spec_fn(A, A) -> bool, x: A, s: Seq<A>) -> Seq<A>
    decreases s.len(),
{
    if s.len() == 0 {
        seq![x]
    } else if le(s[0], x) {
        seq![s[0]] + insert_le(le, x, s.drop_first())
    } else {
        seq![x] + s
    }
}

/// The stable sort of `s`: elements inserted left to right.
pub open spec fn sort_le<A>(le: spec_fn(A, A) -> bool, s: Seq<A>) -> Seq<A>
    decreases s.len(),
{
    if s.len() == 0 {
        s
    } else {
        insert_le(le, s.last(), sort_le(le, s.drop_last()))
    }
}

/// The sequence is ordered under `le`.
pub open spec fn sorted_le<A>(le: spec_fn(A, A) -> bool, s: Seq<A>) -> bool {
    forall|i: int, j: int| 0 <= i < j < s.len() ==> le(#[trigger] s[i], #[trigger] s[j])
}

/// Any two elements compare under `le`.
pub open spec fn le_total<A>(le: spec_fn(A, A) -> bool) -> bool {
    forall|a: A, b: A| #[trigger] le(a, b) || #[trigger] le(b, a)
}

/// `le` is transitive.
pub open spec fn le_trans<A>(le: spec_fn(A, A) -> bool) -> bool {
    forall|a: A, b: A, c: A| #[trigger] le(a, b) && #[trigger] le(b, c) ==> le(a, c)
}

/// Inserting adds exactly the new element.
pub proof fn lemma_insert_le_multiset<A>(le: spec_fn(A, A) -> bool, x: A, s: Seq<A>)
    ensures
        insert_le(le, x, s).len() == s.len() + 1,
        insert_le(le, x, s).to_multiset() == s.to_multiset().insert(x),
    decreases s.len(),
{
    broadcast use vstd::seq_lib::group_to_multiset_ensures;

    if s.len() == 0 {
        assert(insert_le(le, x, s) =~= seq![x]);
        assert(seq![x].to_multiset() =~= s.to_multiset().insert(x)) by {
            assert(seq![x].drop_first() =~= Seq::<A>::empty());
            assert(seq![x].to_multiset() == Seq::<A>::empty().to_multiset().insert(x));
        }
    } else if le(s[0], x) {
        lemma_insert_le_multiset(le, x, s.drop_first());
        let t = insert_le(le, x, s.drop_first());
        assert((seq![s[0]] + t) =~= t.insert(0, s[0]));
        assert((seq![s[0]] + t).to_multiset() =~= t.to_multiset().insert(s[0]));
        assert(s =~= s.drop_first().insert(0, s[0]));
        assert(s.to_multiset() =~= s.drop_first().to_multiset().insert(s[0]));
        assert(s.drop_first().to_multiset().insert(x).insert(s[0]) =~= s.drop_first().to_multiset().insert(
            s[0],
        ).insert(x));
    } else {
        assert((seq![x] + s) =~= s.insert(0, x));
        assert((seq![x] + s).to_multiset() =~= s.to_multiset().insert(x));
    }
}

/// Inserting into an ordered sequence keeps it ordered.
pub proof fn lemma_insert_le_sorted<A>(le: spec_fn(A, A) -> bool, x: A, s: Seq<A>)
    requires
        le_total(le),
        le_trans(le),
        sorted_le(le, s),
    ensures
        sorted_le(le, insert_le(le, x, s)),
    decreases s.len(),
{
    broadcast use vstd::seq_lib::group_to_multiset_ensures;

    if s.len() == 0 {
    } else if le(s[0], x) {
        assert(sorted_le(le, s.drop_first()));
        lemma_insert_le_sorted(le, x, s.drop_first());
        let t = insert_le(le, x, s.drop_first());
        lemma_insert_le_multiset(le, x, s.drop_first());
        // every element of t is either x or an element of the tail, and each
        // is at least s[0]
        assert forall|j: int| 0 < j < (seq![s[0]] + t).len() implies le(
            s[0],
            (seq![s[0]] + t)[j],
        ) by {
            assert(t.to_multiset().contains(t[j - 1]));
            if t[j - 1] == x {
            } else {
                assert(s.drop_first().to_multiset().contains(t[j - 1]));
                let w = choose|w: int|
                    0 <= w < s.drop_first().len() && s.drop_first()[w] == t[j - 1];
                assert(s.drop_first()[w] == s[w + 1]);
                assert(le(s[0], s[w + 1]));
            }
        }
        assert(sorted_le(le, seq![s[0]] + t)) by {
            assert forall|i: int, j: int|
                0 <= i < j < (seq![s[0]] + t).len() implies le(
                #[trigger] (seq![s[0]] + t)[i],
                #[trigger] (seq![s[0]] + t)[j],
            ) by {
                if i == 0 {
                } else {
                    assert((seq![s[0]] + t)[i] == t[i - 1]);
                    assert((seq![s[0]] + t)[j] == t[j - 1]);
                }
            }
        }
    } else {
        assert(le(x, s[0]));
        assert forall|i: int, j: int|
            0 <= i < j < (seq![x] + s).len() implies le(
            #[trigger] (seq![x] + s)[i],
            #[trigger] (seq![x] + s)[j],
        ) by {
            if i == 0 {
                if j > 1 {
                    assert(le(s[0], s[j - 1]));
                }
            }
        }
    }
}

/// The sort is a permutation and is ordered.
pub proof fn lemma_sort_le_ensures<A>(le: spec_fn(A, A) -> bool, s: Seq<A>)
    requires
        le_total(le),
        le_trans(le),
    ensures
        sort_le(le, s).len() == s.len(),
        sort_le(le, s).to_multiset() == s.to_multiset(),
        sorted_le(le, sort_le(le, s)),
    decreases s.len(),
{
    broadcast use vstd::seq_lib::group_to_multiset_ensures;

    if s.len() == 0 {
    } else {
        lemma_sort_le_ensures(le, s.drop_last());
        lemma_insert_le_multiset(le, s.last(), sort_le(le, s.drop_last()));
        lemma_insert_le_sorted(le, s.last(), sort_le(le, s.drop_last()));
        assert(s =~= s.drop_last().push(s.last()));
        assert(s.drop_last().push(s.last()).to_multiset() =~= s.drop_last().to_multiset().insert(
            s.last(),
        ));
    }
}

/// Elements that do not satisfy `p` leave the filtered view unchanged when
/// inserted.
pub proof fn lemma_insert_le_filter_out<A>(
    le: spec_fn(A, A) -> bool,
    x: A,
    s: Seq<A>,
    p: spec_fn(A) -> bool,
)
    requires
        !p(x),
    ensures
        insert_le(le, x, s).filter(p) == s.filter(p),
    decreases s.len(),
{
    reveal(Seq::filter);
    if s.len() == 0 {
        assert(seq![x].drop_last() =~= Seq::<A>::empty());
        assert(Seq::<A>::empty().filter(p) =~= Seq::<A>::empty());
        assert(seq![x].last() == x);
        assert(seq![x].filter(p) =~= Seq::<A>::empty());
    } else if le(s[0], x) {
        lemma_insert_le_filter_out(le, x, s.drop_first(), p);
        let t = insert_le(le, x, s.drop_first());
        Seq::filter_distributes_over_add(seq![s[0]], t, p);
        Seq::filter_distributes_over_add(seq![s[0]], s.drop_first(), p);
        assert(s =~= seq![s[0]] + s.drop_first());
    } else {
        Seq::filter_distributes_over_add(seq![x], s, p);
        assert(seq![x].drop_last() =~= Seq::<A>::empty());
        assert(Seq::<A>::empty().filter(p) =~= Seq::<A>::empty());
        assert(seq![x].last() == x);
        assert(seq![x].filter(p) =~= Seq::<A>::empty());
        assert(Seq::<A>::empty() + s.filter(p) =~= s.filter(p));
    }
}

/// An element of the class `p`, inserted into an ordered sequence whose class
/// members all lie at or below it, lands after every other member of the
/// class: the filtered view gains it at the end.
pub proof fn lemma_insert_le_filter_in<A>(
    le: spec_fn(A, A) -> bool,
    x: A,
    s: Seq<A>,
    p: spec_fn(A) -> bool,
)
    requires
        le_trans(le),
        sorted_le(le, s),
        p(x),
        forall|y: A| #[trigger] p(y) ==> le(y, x),
    ensures
        insert_le(le, x, s).filter(p) == s.filter(p).push(x),
    decreases s.len(),
{
    reveal(Seq::filter);
    if s.len() == 0 {
        assert(seq![x].drop_last() =~= Seq::<A>::empty());
        assert(Seq::<A>::empty().filter(p) =~= Seq::<A>::empty());
        assert(seq![x].last() == x);
        assert(seq![x].filter(p) =~= Seq::<A>::empty().push(x));
        assert(s.filter(p) =~= Seq::<A>::empty());
    } else if le(s[0], x) {
        assert(sorted_le(le, s.drop_first()));
        lemma_insert_le_filter_in(le, x, s.drop_first(), p);
        let t = insert_le(le, x, s.drop_first());
        Seq::filter_distributes_over_add(seq![s[0]], t, p);
        Seq::filter_distributes_over_add(seq![s[0]], s.drop_first(), p);
        assert(s =~= seq![s[0]] + s.drop_first());
        assert(seq![s[0]].filter(p) + s.drop_first().filter(p).push(x) =~= (seq![s[0]].filter(p)
            + s.drop_first().filter(p)).push(x));
    } else {
        // x lands at the front; no element of s can be in the class, as each
        // is above s[0], which is above x
        assert forall|j: int| 0 <= j < s.len() implies !p(s[j]) by {
            if p(s[j]) {
                assert(le(s[j], x));
                if j > 0 {
                    assert(le(s[0], s[j]));
                    assert(le(s[0], x));
                } else {
                    assert(le(s[0], x));
                }
            }
        }
        lemma_all_filtered_out(s, p);
        Seq::filter_distributes_over_add(seq![x], s, p);
        assert(seq![x].drop_last() =~= Seq::<A>::empty());
        assert(Seq::<A>::empty().filter(p) =~= Seq::<A>::empty());
        assert(seq![x].last() == x);
        assert(seq![x].filter(p) =~= Seq::<A>::empty().push(x));
        assert(Seq::<A>::empty().push(x) + Seq::<A>::empty() =~= Seq::<A>::empty().push(x));
        assert(s.filter(p).push(x) =~= Seq::<A>::empty().push(x));
    }
}

proof fn lemma_all_filtered_out<A>(s: Seq<A>, p: spec_fn(A) -> bool)
    requires
        forall|j: int| 0 <= j < s.len() ==> !p(#[trigger] s[j]),
    ensures
        s.filter(p) == Seq::<A>::empty(),
    decreases s.len(),
{
    reveal(Seq::filter);
    if s.len() == 0 {
        assert(s.filter(p) =~= Seq::<A>::empty());
    } else {
        lemma_all_filtered_out(s.drop_last(), p);
    }
}

/// Stability: for any class of mutually tied elements the sort keeps their
/// original order — the filtered views of input and output are equal.
pub proof fn lemma_sort_le_stable<A>(le: spec_fn(A, A) -> bool, s: Seq<A>, p: spec_fn(A) -> bool)
    requires
        le_total(le),
        le_trans(le),
        forall|a: A, b: A| #[trigger] p(a) && #[trigger] p(b) ==> le(a, b) && le(b, a),
    ensures
        sort_le(le, s).filter(p) == s.filter(p),
    decreases s.len(),
{
    reveal(Seq::filter);
    if s.len() == 0 {
    } else {
        lemma_sort_le_stable(le, s.drop_last(), p);
        lemma_sort_le_ensures(le, s.drop_last());
        let t = sort_le(le, s.drop_last());
        if p(s.last()) {
            assert forall|y: A| #[trigger] p(y) implies le(y, s.last()) by {
                assert(p(y) && p(s.last()));
            }
            lemma_insert_le_filter_in(le, s.last(), t, p);
            assert(s.filter(p) == s.drop_last().filter(p).push(s.last()));
        } else {
            lemma_insert_le_filter_out(le, s.last(), t, p);
            assert(s.filter(p) == s.drop_last().filter(p));
        }
    }
}

/// Two ordered sequences of the same elements are equal, where tied elements
/// are identical: ordering determines the arrangement completely.
pub proof fn lemma_sorted_unique<A>(le: spec_fn(A, A) -> bool, a: Seq<A>, b: Seq<A>)
    requires
        le_total(le),
        le_trans(le),
        sorted_le(le, a),
        sorted_le(le, b),
        a.to_multiset() == b.to_multiset(),
        forall|x: A, y: A|
            a.to_multiset().contains(x) && a.to_multiset().contains(y) && #[trigger] le(x, y)
                && #[trigger] le(y, x) ==> x == y,
    ensures
        a == b,
    decreases a.len(),
{
    broadcast use vstd::seq_lib::group_to_multiset_ensures;

    if a.len() == 0 {
        assert(b.to_multiset().len() == 0);
        assert(a =~= b);
    } else {
        assert(a.to_multiset().contains(a[0]));
        assert(b.to_multiset().contains(a[0]));
        assert(b.len() == b.to_multiset().len());
        assert(b.len() > 0);
        assert(a.to_multiset().contains(b[0]));
        // each head is a least element, so the heads coincide
        assert(a.contains(b[0]));
        assert(b.contains(a[0]));
        let ia = choose|ia: int| 0 <= ia < a.len() && a[ia] == b[0];
        assert(le(a[0], b[0])) by {
            if ia > 0 {
                assert(le(a[0], a[ia]));
            } else {
                assert(a[0] == b[0]);
                assert(le(a[0], b[0]) || le(b[0], a[0]));
            }
        }
        let ib = choose|ib: int| 0 <= ib < b.len() && b[ib] == a[0];
        assert(le(b[0], a[0])) by {
            if ib > 0 {
                assert(le(b[0], b[ib]));
            } else {
                assert(b[0] == a[0]);
                assert(le(b[0], a[0]) || le(a[0], b[0]));
            }
        }
        assert(a[0] == b[0]);
        assert(a =~= a.drop_first().insert(0, a[0]));
        assert(b =~= b.drop_first().insert(0, b[0]));
        assert(a.to_multiset() =~= a.drop_first().to_multiset().insert(a[0]));
        assert(b.to_multiset() =~= b.drop_first().to_multiset().insert(b[0]));
        assert forall|y: A|
            a.drop_first().to_multiset().count(y) == b.drop_first().to_multiset().count(y) by {
            assert(a.to_multiset().count(y) == b.to_multiset().count(y));
            assert(a.drop_first().to_multiset().insert(a[0]).count(y) == b.drop_first().to_multiset().insert(
                b[0],
            ).count(y));
        }
        assert(a.drop_first().to_multiset() =~= b.drop_first().to_multiset());
        assert(sorted_le(le, a.drop_first()));
        assert(sorted_le(le, b.drop_first()));
        assert forall|x: A, y: A|
            a.drop_first().to_multiset().contains(x) && a.drop_first().to_multiset().contains(y)
                && #[trigger] le(x, y) && #[trigger] le(y, x) implies x == y by {
            assert(a.to_multiset().contains(x));
            assert(a.to_multiset().contains(y));
        }
        lemma_sorted_unique(le, a.drop_first(), b.drop_first());
        assert(a =~= b);
    }
}

/// An ordered position: everything before `j` is at most `x`, nothing from
/// `j` on is.
pub open spec fn insert_pos<A>(le: spec_fn(A, A) -> bool, x: A, s: Seq<A>, j: int) -> bool {
    &&& 0 <= j <= s.len()
    &&& (j > 0 ==> le(s[j - 1], x))
    &&& forall|k: int| j <= k < s.len() ==> !le(#[trigger] s[k], x)
}

/// Inserting at an ordered position is what `insert_le` does.
pub proof fn lemma_insert_le_at<A>(le: spec_fn(A, A) -> bool, x: A, s: Seq<A>, j: int)
    requires
        le_trans(le),
        sorted_le(le, s),
        insert_pos(le, x, s, j),
    ensures
        insert_le(le, x, s) == s.insert(j, x),
    decreases s.len(),
{
    if s.len() == 0 {
        assert(insert_le(le, x, s) =~= s.insert(0, x));
    } else if le(s[0], x) {
        assert(j > 0) by {
            if j == 0 {
                assert(!le(s[0], x));
            }
        }
        assert(sorted_le(le, s.drop_first()));
        assert(insert_pos(le, x, s.drop_first(), j - 1)) by {
            if j - 1 > 0 {
                assert(s.drop_first()[j - 2] == s[j - 1]);
            }
            assert forall|k: int| j - 1 <= k < s.drop_first().len() implies !le(
                #[trigger] s.drop_first()[k],
                x,
            ) by {
                assert(s.drop_first()[k] == s[k + 1]);
            }
        }
        lemma_insert_le_at(le, x, s.drop_first(), j - 1);
        assert(seq![s[0]] + s.drop_first().insert(j - 1, x) =~= s.insert(j, x));
    } else {
        assert(j == 0) by {
            if j > 0 {
                assert(le(s[j - 1], x));
                if j - 1 > 0 {
                    assert(le(s[0], s[j - 1]));
                }
                assert(le(s[0], x));
            }
        }
        assert(seq![x] + s =~= s.insert(0, x));
    }
}

} // verus!
