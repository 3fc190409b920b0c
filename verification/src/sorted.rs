//! Ordered sets of texts, held as ascending rows without repeats.

use crate::text::{precedes, same, text_lt, text_lt_total, text_lt_transitive, views};
use vstd::prelude::*;

verus! {

/// The ascending row `s` with `k` in its place; `s` itself where it holds `k`.
pub open spec fn with_text(s: Seq<Seq<char>>, k: Seq<char>) -> Seq<Seq<char>>
    decreases s.len(),
{
    if s.len() == 0 {
        seq![k]
    } else if s[0] == k {
        s
    } else if text_lt(k, s[0]) {
        seq![k] + s
    } else {
        seq![s[0]] + with_text(s.drop_first(), k)
    }
}

/// The row `s` without `k`.
pub open spec fn without_text(s: Seq<Seq<char>>, k: Seq<char>) -> Seq<Seq<char>>
    decreases s.len(),
{
    if s.len() == 0 {
        s
    } else if s[0] == k {
        s.drop_first()
    } else {
        seq![s[0]] + without_text(s.drop_first(), k)
    }
}

/// Whether a row is strictly ascending.
pub open spec fn texts_ascend(s: Seq<Seq<char>>) -> bool {
    forall|i: int, j: int| #![trigger s[i], s[j]] 0 <= i < j < s.len() ==> text_lt(s[i], s[j])
}

/// A text put into a row is in it, and nothing else changes.
pub proof fn with_text_contains(s: Seq<Seq<char>>, k: Seq<char>, t: Seq<char>)
    ensures
        with_text(s, k).contains(t) == (s.contains(t) || t == k),
    decreases s.len(),
{
    let r = with_text(s, k);
    if s.len() == 0 {
        assert(r[0] == k);
        assert(r.contains(t) == (t == k));
    } else if s[0] == k {
        assert(s[0] == k);
    } else if text_lt(k, s[0]) {
        assert(r[0] == k);
        if s.contains(t) {
            let i = choose|i: int| 0 <= i < s.len() && s[i] == t;
            assert(r[i + 1] == t);
        }
        if r.contains(t) {
            let i = choose|i: int| 0 <= i < r.len() && r[i] == t;
            if i > 0 {
                assert(s[i - 1] == t);
            }
        }
    } else {
        let rest = with_text(s.drop_first(), k);
        with_text_contains(s.drop_first(), k, t);
        assert(r[0] == s[0]);
        if r.contains(t) {
            let i = choose|i: int| 0 <= i < r.len() && r[i] == t;
            if i > 0 {
                assert(rest[i - 1] == t);
                assert(rest.contains(t));
                if s.drop_first().contains(t) {
                    let j = choose|j: int|
                        0 <= j < s.drop_first().len() && s.drop_first()[j] == t;
                    assert(s[j + 1] == t);
                }
            }
        }
        if s.contains(t) {
            let i = choose|i: int| 0 <= i < s.len() && s[i] == t;
            if i > 0 {
                assert(s.drop_first()[i - 1] == t);
                assert(rest.contains(t));
                let j = choose|j: int| 0 <= j < rest.len() && rest[j] == t;
                assert(r[j + 1] == t);
            }
        }
        if t == k {
            assert(rest.contains(t));
            let j = choose|j: int| 0 <= j < rest.len() && rest[j] == t;
            assert(r[j + 1] == t);
        }
    }
}

/// A text put into an ascending row leaves it ascending.
pub proof fn with_text_ascends(s: Seq<Seq<char>>, k: Seq<char>)
    requires
        texts_ascend(s),
    ensures
        texts_ascend(with_text(s, k)),
    decreases s.len(),
{
    let r = with_text(s, k);
    if s.len() > 0 && s[0] != k {
        if text_lt(k, s[0]) {
            assert forall|i: int, j: int|
                #![trigger r[i], r[j]]
                0 <= i < j < r.len() implies text_lt(r[i], r[j]) by {
                if i == 0 {
                    assert(r[j] == s[j - 1]);
                    if j > 1 {
                        assert(text_lt(s[0], s[j - 1]));
                        text_lt_transitive(k, s[0], s[j - 1]);
                    }
                } else {
                    assert(text_lt(s[i - 1], s[j - 1]));
                }
            }
        } else {
            let tail = s.drop_first();
            let rest = with_text(tail, k);
            assert forall|i: int, j: int|
                #![trigger tail[i], tail[j]]
                0 <= i < j < tail.len() implies text_lt(tail[i], tail[j]) by {
                assert(text_lt(s[i + 1], s[j + 1]));
            }
            with_text_ascends(tail, k);
            text_lt_total(k, s[0]);
            assert forall|i: int, j: int|
                #![trigger r[i], r[j]]
                0 <= i < j < r.len() implies text_lt(r[i], r[j]) by {
                if i == 0 {
                    assert(r[j] == rest[j - 1]);
                    assert(rest.contains(rest[j - 1]));
                    with_text_contains(tail, k, rest[j - 1]);
                    if tail.contains(rest[j - 1]) {
                        let x = choose|x: int| 0 <= x < tail.len() && tail[x] == rest[j - 1];
                        assert(text_lt(s[0], s[x + 1]));
                    }
                } else {
                    assert(text_lt(rest[i - 1], rest[j - 1]));
                }
            }
        }
    }
}

/// Puts a text into an ascending row.
pub(crate) fn insert_text(v: &mut Vec<String>, k: String)
    ensures
        views(final(v)@) == with_text(views(old(v)@), k@),
{
    let ghost start = views(v@);
    let mut i: usize = 0;
    proof {
        assert(start.take(0) + with_text(start.skip(0), k@) == with_text(start, k@)) by {
            assert(start.skip(0) == start);
        }
    }
    while i < v.len()
        invariant
            start == views(old(v)@),
            views(v@) == start,
            i <= v.len(),
            start.take(i as int) + with_text(start.skip(i as int), k@) == with_text(start, k@),
        decreases v.len() - i,
    {
        proof {
            assert(start.skip(i as int)[0] == v@[i as int]@);
        }
        if same(v[i].as_str(), k.as_str()) {
            proof {
                assert(start.take(i as int) + start.skip(i as int) == start);
            }
            return;
        }
        if precedes(k.as_str(), v[i].as_str()) {
            let ghost before = v@;
            v.insert(i, k);
            proof {
                assert(views(v@) == start.take(i as int) + (seq![k@] + start.skip(i as int)));
            }
            return;
        }
        proof {
            let rest = start.skip(i as int);
            assert(rest.drop_first() == start.skip(i + 1));
            assert(start.take(i as int) + (seq![rest[0]] + with_text(rest.drop_first(), k@))
                == start.take(i + 1) + with_text(start.skip(i + 1), k@));
        }
        i = i + 1;
    }
    let ghost before = v@;
    v.push(k);
    proof {
        assert(start.skip(start.len() as int).len() == 0);
        assert(views(v@) == start.take(start.len() as int) + seq![k@]);
    }
}

/// Takes a text out of a row; whether it was in it.
pub(crate) fn remove_text(v: &mut Vec<String>, k: &str) -> (r: bool)
    ensures
        views(final(v)@) == without_text(views(old(v)@), k@),
        r == views(old(v)@).contains(k@),
{
    let ghost start = views(v@);
    let mut i: usize = 0;
    proof {
        assert(start.take(0) + without_text(start.skip(0), k@) == without_text(start, k@)) by {
            assert(start.skip(0) == start);
        }
    }
    while i < v.len()
        invariant
            start == views(old(v)@),
            views(v@) == start,
            i <= v.len(),
            forall|j: int| 0 <= j < i ==> #[trigger] start[j] != k@,
            start.take(i as int) + without_text(start.skip(i as int), k@) == without_text(
                start,
                k@,
            ),
        decreases v.len() - i,
    {
        proof {
            assert(start.skip(i as int)[0] == v@[i as int]@);
        }
        if same(v[i].as_str(), k) {
            let ghost before = v@;
            v.remove(i);
            proof {
                assert(start[i as int] == k@);
                assert(start.skip(i as int).drop_first() == start.skip(i + 1));
                assert(views(v@) == start.take(i as int) + start.skip(i + 1));
            }
            return true;
        }
        proof {
            let rest = start.skip(i as int);
            assert(rest.drop_first() == start.skip(i + 1));
            assert(start.take(i as int) + (seq![rest[0]] + without_text(rest.drop_first(), k@))
                == start.take(i + 1) + without_text(start.skip(i + 1), k@));
        }
        i = i + 1;
    }
    proof {
        assert(start.take(start.len() as int) + without_text(
            start.skip(start.len() as int),
            k@,
        ) == start);
    }
    false
}

} // verus!
