//! Rows compared without regard to order.

use vstd::multiset::Multiset;
use vstd::prelude::*;

verus! {

/// What `f` gives for each element, in a row.
pub open spec fn gathered<A, B>(s: Seq<A>, f: spec_fn(A) -> Seq<B>) -> Seq<B>
    decreases s.len(),
{
    if s.len() == 0 {
        Seq::empty()
    } else {
        gathered(s.drop_last(), f) + f(s.last())
    }
}

/// The elements of two rows put together are those of both.
pub proof fn joined_elements<A>(s: Seq<A>, t: Seq<A>)
    ensures
        (s + t).to_multiset() == s.to_multiset().add(t.to_multiset()),
{
    vstd::seq_lib::lemma_multiset_commutative(s, t);
}

/// Taking one element away takes away what `f` gives for it, and nothing else.
proof fn gathered_without<A, B>(s: Seq<A>, f: spec_fn(A) -> Seq<B>, k: int)
    requires
        0 <= k < s.len(),
    ensures
        gathered(s, f).to_multiset() == gathered(s.remove(k), f).to_multiset().add(
            f(s[k]).to_multiset(),
        ),
    decreases s.len(),
{
    let front = s.drop_last();
    joined_elements(gathered(front, f), f(s.last()));
    if k == s.len() - 1 {
        assert(s.remove(k) == front);
    } else {
        let rest = s.remove(k);
        gathered_without(front, f, k);
        assert(rest.drop_last() == front.remove(k));
        assert(rest.last() == s.last());
        joined_elements(gathered(front.remove(k), f), f(s.last()));
        assert(gathered(s, f).to_multiset() =~= gathered(rest, f).to_multiset().add(
            f(s[k]).to_multiset(),
        ));
    }
}

/// What is gathered from the same elements in another order is the same, in some order.
pub proof fn gathered_forgets_order<A, B>(s: Seq<A>, t: Seq<A>, f: spec_fn(A) -> Seq<B>)
    requires
        s.to_multiset() == t.to_multiset(),
    ensures
        gathered(s, f).to_multiset() == gathered(t, f).to_multiset(),
    decreases s.len(),
{
    broadcast use vstd::seq_lib::group_to_multiset_ensures;

    assert(s.len() == s.to_multiset().len());
    assert(t.len() == t.to_multiset().len());
    if s.len() > 0 {
        let x = s.last();
        assert(s[s.len() - 1] == x);
        assert(s.to_multiset().count(x) > 0);
        let k = t.index_of(x);
        let front = s.remove(s.len() - 1);
        assert(front == s.drop_last());
        assert(front.to_multiset() == t.remove(k).to_multiset());
        gathered_forgets_order(front, t.remove(k), f);
        gathered_without(s, f, s.len() - 1);
        gathered_without(t, f, k);
    } else {
        assert(s == t);
    }
}

/// Gathering one thing for each element is changing each.
proof fn gathered_singly<A, B>(s: Seq<A>, g: spec_fn(A) -> B)
    ensures
        gathered(s, |x: A| seq![g(x)]) == s.map_values(g),
    decreases s.len(),
{
    let one = |x: A| seq![g(x)];
    if s.len() > 0 {
        gathered_singly(s.drop_last(), g);
        assert(gathered(s, one) == s.drop_last().map_values(g) + seq![g(s.last())]);
        assert(s.map_values(g) == s.drop_last().map_values(g) + seq![g(s.last())]);
    } else {
        assert(s.map_values(g) == gathered(s, one));
    }
}

/// Changing each of the same elements, in one order or another, gives the same elements.
pub proof fn changed_forgets_order<A, B>(s: Seq<A>, t: Seq<A>, g: spec_fn(A) -> B)
    requires
        s.to_multiset() == t.to_multiset(),
    ensures
        s.map_values(g).to_multiset() == t.map_values(g).to_multiset(),
{
    gathered_singly(s, g);
    gathered_singly(t, g);
    gathered_forgets_order(s, t, |x: A| seq![g(x)]);
}

/// What is gathered comes from one of the elements.
pub proof fn gathered_from<A, B>(s: Seq<A>, f: spec_fn(A) -> Seq<B>, x: B) -> (i: int)
    requires
        gathered(s, f).contains(x),
    ensures
        0 <= i < s.len(),
        f(s[i]).contains(x),
    decreases s.len(),
{
    let front = gathered(s.drop_last(), f);
    let k = gathered(s, f).index_of(x);
    if k < front.len() {
        assert(front[k] == x);
        let i = gathered_from(s.drop_last(), f, x);
        assert(s.drop_last()[i] == s[i]);
        i
    } else {
        assert(f(s.last())[k - front.len()] == x);
        s.len() - 1
    }
}

/// Whether `a` and `b` are among the elements, as two of them.
pub open spec fn holds_both<A>(m: Multiset<A>, a: A, b: A) -> bool {
    &&& m.count(a) > 0
    &&& m.count(b) > 0
    &&& a == b ==> m.count(a) > 1
}

/// Two elements of a row are among its elements, as two of them.
pub proof fn row_holds_both<A>(s: Seq<A>, i: int, j: int)
    requires
        0 <= i < s.len(),
        0 <= j < s.len(),
        i != j,
    ensures
        holds_both(s.to_multiset(), s[i], s[j]),
{
    broadcast use vstd::seq_lib::group_to_multiset_ensures;

    let rest = s.remove(i);
    assert(rest.to_multiset() == s.to_multiset().remove(s[i]));
    let k = if j < i {
        j
    } else {
        j - 1
    };
    assert(rest[k] == s[j]);
    assert(rest.contains(s[j]));
    assert(rest.to_multiset().count(s[j]) > 0);
    assert(s.contains(s[i]));
    assert(s.contains(s[j]));
}

/// Where two are among the elements of a row, the second stands elsewhere than at a given place of
/// the first.
pub proof fn row_has_other<A>(s: Seq<A>, i: int, b: A) -> (j: int)
    requires
        0 <= i < s.len(),
        holds_both(s.to_multiset(), s[i], b),
    ensures
        0 <= j < s.len(),
        j != i,
        s[j] == b,
{
    broadcast use vstd::seq_lib::group_to_multiset_ensures;

    let rest = s.remove(i);
    assert(rest.to_multiset() == s.to_multiset().remove(s[i]));
    assert(rest.to_multiset().count(b) > 0);
    let k = rest.index_of(b);
    assert(rest.contains(b));
    if k < i {
        assert(rest[k] == s[k]);
        k
    } else {
        assert(rest[k] == s[k + 1]);
        k + 1
    }
}

} // verus!
