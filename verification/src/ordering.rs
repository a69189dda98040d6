//! Sorting by a rank, stably.

use vstd::prelude::*;

use crate::lists::chosen;
use crate::text;

verus! {

/// Things that can be put in order by what their models say.
pub trait Ranked: DeepView {
    /// Whether the first of two must stand before the second.
    spec fn precedes(a: Self::V, b: Self::V) -> bool;

    /// Whether this one must stand before the other.
    fn before(&self, other: &Self) -> (r: bool)
        ensures
            r == Self::precedes(self.deep_view(), other.deep_view()),
    ;
}

/// Strings stand in the order of their code points.
impl Ranked for String {
    open spec fn precedes(a: Seq<char>, b: Seq<char>) -> bool {
        text::text_before(a, b)
    }

    fn before(&self, other: &Self) -> (r: bool) {
        text::comes_before(self.as_str(), other.as_str())
    }
}

/// Numbers stand in their order.
impl Ranked for i64 {
    open spec fn precedes(a: i64, b: i64) -> bool {
        a < b
    }

    fn before(&self, other: &Self) -> (r: bool) {
        *self < *other
    }
}

/// Pairs of strings stand in the order of their first halves.
impl Ranked for (String, String) {
    open spec fn precedes(a: (Seq<char>, Seq<char>), b: (Seq<char>, Seq<char>)) -> bool {
        text::text_before(a.0, b.0)
    }

    fn before(&self, other: &Self) -> (r: bool) {
        text::comes_before(self.0.as_str(), other.0.as_str())
    }
}

/// A sorted sequence with one more item: it stands behind every item that it
/// need not precede, counted from the end.
pub open spec fn inserted<T>(s: Seq<T>, x: T, precedes: spec_fn(T, T) -> bool) -> Seq<T>
    decreases s.len(),
{
    if s.len() > 0 && precedes(x, s.last()) {
        inserted(s.drop_last(), x, precedes).push(s.last())
    } else {
        s.push(x)
    }
}

/// A sequence in order, items of one rank keeping the order they had.
pub open spec fn in_order<T>(s: Seq<T>, precedes: spec_fn(T, T) -> bool) -> Seq<T>
    decreases s.len(),
{
    if s.len() == 0 {
        s
    } else {
        inserted(in_order(s.drop_last(), precedes), s.last(), precedes)
    }
}

/// Whether no item stands behind one that it must precede.
pub open spec fn is_ordered<T>(s: Seq<T>, precedes: spec_fn(T, T) -> bool) -> bool {
    forall|i: int, j: int| 0 <= i < j < s.len() ==> !precedes(#[trigger] s[j], #[trigger] s[i])
}

/// Whether a relation is a strict weak order.
pub open spec fn ranks<T>(precedes: spec_fn(T, T) -> bool) -> bool {
    &&& forall|a: T| !#[trigger] precedes(a, a)
    &&& forall|a: T, b: T, c: T| #[trigger]
        precedes(a, b) && #[trigger] precedes(b, c) ==> precedes(a, c)
    &&& forall|a: T, b: T, c: T|
        !#[trigger] precedes(a, b) && !#[trigger] precedes(b, c) ==> !precedes(a, c)
}

proof fn lemma_inserted_is_insert<T>(s: Seq<T>, x: T, at: int, precedes: spec_fn(T, T) -> bool)
    requires
        0 <= at <= s.len(),
        forall|j: int| at <= j < s.len() ==> precedes(x, #[trigger] s[j]),
        at > 0 ==> !precedes(x, s[at - 1]),
    ensures
        inserted(s, x, precedes) == s.insert(at, x),
    decreases s.len(),
{
    if at < s.len() {
        assert(precedes(x, s[s.len() - 1]));
        lemma_inserted_is_insert(s.drop_last(), x, at, precedes);
        assert(s.drop_last().insert(at, x).push(s.last()) =~= s.insert(at, x));
    } else {
        assert(s.insert(at, x) =~= s.push(x));
    }
}

/// Puts items in order, stably.
pub fn sorted<T: Ranked>(items: Vec<T>) -> (r: Vec<T>)
    ensures
        r.deep_view() == in_order(items.deep_view(), |a: T::V, b: T::V| T::precedes(a, b)),
{
    let ghost all = items.deep_view();
    let ghost rel = |a: T::V, b: T::V| T::precedes(a, b);
    let mut rest: Vec<T> = items;
    let mut pending: Vec<T> = Vec::new();
    // `pending` holds what is left, last item first, so that `pop` yields it in turn.
    while rest.len() > 0
        invariant
            rest.deep_view() + pending.deep_view().reverse() == all,
        decreases rest.len(),
    {
        let ghost r0 = rest.deep_view();
        let ghost p0 = pending.deep_view();
        if let Some(x) = rest.pop() {
            pending.push(x);
            proof {
                assert(rest.deep_view() =~= r0.drop_last());
                assert(pending.deep_view() =~= p0.push(r0.last()));
                assert(rest.deep_view() + pending.deep_view().reverse() =~= r0 + p0.reverse());
            }
        }
    }
    proof {
        assert(rest.deep_view() =~= Seq::<T::V>::empty());
        assert(pending.deep_view().reverse() =~= all);
    }
    let mut out: Vec<T> = Vec::new();
    proof {
        assert(out.deep_view() =~= Seq::<T::V>::empty());
        assert(all.take(0) =~= Seq::<T::V>::empty());
    }
    while pending.len() > 0
        invariant
            rel == (|a: T::V, b: T::V| T::precedes(a, b)),
            pending.len() <= all.len(),
            pending.deep_view().reverse() == all.skip(all.len() - pending.len()),
            out.deep_view() == in_order(all.take(all.len() - pending.len()), rel),
        decreases pending.len(),
    {
        let ghost p0 = pending.deep_view();
        let ghost n = (all.len() - pending.len()) as int;
        if let Some(x) = pending.pop() {
            proof {
                assert(pending.deep_view() =~= p0.drop_last());
                assert(p0.reverse()[0] == p0.last());
                assert(x.deep_view() == p0.last());
                assert(x.deep_view() == all[n]);
                assert(pending.deep_view().reverse() =~= p0.reverse().drop_first());
                assert(all.skip(n).drop_first() =~= all.skip(n + 1));
                assert(all.take(n + 1).drop_last() =~= all.take(n));
                assert(all.take(n + 1).last() == all[n]);
            }
            let mut at: usize = out.len();
            while at > 0 && x.before(&out[at - 1])
                invariant
                    at <= out.len(),
                    rel == (|a: T::V, b: T::V| T::precedes(a, b)),
                    forall|j: int|
                        at <= j < out.len() ==> rel(x.deep_view(), #[trigger] out.deep_view()[j]),
                decreases at,
            {
                at = at - 1;
            }
            let ghost o0 = out.deep_view();
            proof {
                lemma_inserted_is_insert(o0, x.deep_view(), at as int, rel);
            }
            out.insert(at, x);
            proof {
                assert(out.deep_view() =~= o0.insert(at as int, x.deep_view()));
            }
        }
    }
    proof {
        assert(all.take(all.len() as int) =~= all);
    }
    out
}

proof fn lemma_inserted<T>(s: Seq<T>, x: T, precedes: spec_fn(T, T) -> bool)
    ensures
        inserted(s, x, precedes).len() == s.len() + 1,
        inserted(s, x, precedes).to_multiset() == s.to_multiset().insert(x),
        ranks(precedes) && is_ordered(s, precedes) ==> is_ordered(
            inserted(s, x, precedes),
            precedes,
        ),
        forall|i: int|
            0 <= i < s.len() + 1 ==> #[trigger] inserted(s, x, precedes)[i] == x || exists|j: int|
                0 <= j < s.len() && s[j] == inserted(s, x, precedes)[i],
    decreases s.len(),
{
    broadcast use vstd::seq_lib::group_to_multiset_ensures;

    let r = inserted(s, x, precedes);
    if s.len() > 0 && precedes(x, s.last()) {
        let t = s.drop_last();
        let q = inserted(t, x, precedes);
        lemma_inserted(t, x, precedes);
        assert(t.push(s.last()) =~= s);
        assert(s.to_multiset() =~= t.to_multiset().insert(s.last()));
        assert(r.to_multiset() =~= s.to_multiset().insert(x));
        assert forall|i: int| 0 <= i < s.len() + 1 implies #[trigger] r[i] == x || exists|j: int|
            0 <= j < s.len() && s[j] == r[i] by {
            if i < q.len() {
                assert(r[i] == q[i]);
                if q[i] != x {
                    let j = choose|j: int| 0 <= j < t.len() && t[j] == q[i];
                    assert(s[j] == r[i]);
                }
            } else {
                assert(s[s.len() - 1] == r[i]);
            }
        }
        if ranks(precedes) && is_ordered(s, precedes) {
            assert(is_ordered(t, precedes));
            assert forall|i: int, j: int| 0 <= i < j < r.len() implies !precedes(
                #[trigger] r[j],
                #[trigger] r[i],
            ) by {
                if j < q.len() {
                    assert(r[j] == q[j] && r[i] == q[i]);
                } else {
                    assert(r[j] == s.last());
                    assert(r[i] == q[i]);
                    if q[i] == x {
                        if precedes(s.last(), x) {
                            assert(precedes(x, x));
                        }
                    } else {
                        let k = choose|k: int| 0 <= k < t.len() && t[k] == q[i];
                        assert(s[k] == q[i]);
                        assert(!precedes(s[s.len() - 1], s[k]));
                    }
                }
            }
        }
    } else {
        assert(r.to_multiset() =~= s.to_multiset().insert(x));
        assert forall|i: int| 0 <= i < s.len() + 1 implies #[trigger] r[i] == x || exists|j: int|
            0 <= j < s.len() && s[j] == r[i] by {
            if i < s.len() {
                assert(s[i] == r[i]);
            }
        }
        if ranks(precedes) && is_ordered(s, precedes) {
            assert forall|i: int, j: int| 0 <= i < j < r.len() implies !precedes(
                #[trigger] r[j],
                #[trigger] r[i],
            ) by {
                if j < s.len() {
                    assert(r[j] == s[j] && r[i] == s[i]);
                } else {
                    assert(r[i] == s[i]);
                    if i < s.len() - 1 {
                        assert(!precedes(s[s.len() - 1], s[i]));
                        assert(!precedes(x, s.last()));
                    }
                }
            }
        }
    }
}

/// Putting a sequence in order loses nothing, adds nothing, and leaves no item
/// behind one that it must precede.
pub proof fn law_in_order<T>(s: Seq<T>, precedes: spec_fn(T, T) -> bool)
    ensures
        in_order(s, precedes).len() == s.len(),
        in_order(s, precedes).to_multiset() == s.to_multiset(),
        ranks(precedes) ==> is_ordered(in_order(s, precedes), precedes),
        forall|i: int| 0 <= i < s.len() ==> s.contains(#[trigger] in_order(s, precedes)[i]),
    decreases s.len(),
{
    broadcast use vstd::seq_lib::group_to_multiset_ensures;

    if s.len() > 0 {
        let t = s.drop_last();
        let before = in_order(t, precedes);
        let after = in_order(s, precedes);
        law_in_order(t, precedes);
        lemma_inserted(before, s.last(), precedes);
        assert(t.push(s.last()) =~= s);
        assert forall|i: int| 0 <= i < s.len() implies s.contains(#[trigger] after[i]) by {
            if after[i] == s.last() {
                assert(s[s.len() - 1] == after[i]);
            } else {
                let j = choose|j: int| 0 <= j < before.len() && before[j] == after[i];
                assert(t.contains(before[j]));
                let k = choose|k: int| 0 <= k < t.len() && t[k] == before[j];
                assert(s[k] == after[i]);
            }
        }
    }
}

/// What is put in order holds exactly the items it held.
pub proof fn law_in_order_contains<T>(s: Seq<T>, precedes: spec_fn(T, T) -> bool)
    ensures
        forall|x: T| #[trigger] in_order(s, precedes).contains(x) <==> s.contains(x),
{
    broadcast use vstd::seq_lib::group_to_multiset_ensures;

    law_in_order(s, precedes);
    let r = in_order(s, precedes);
    assert forall|x: T| #[trigger] r.contains(x) <==> s.contains(x) by {
        assert(r.to_multiset().count(x) == s.to_multiset().count(x));
    }
}

/// Items of which none must precede another keep the order that they had among
/// themselves.
pub proof fn law_in_order_keeps_ties<T>(
    s: Seq<T>,
    precedes: spec_fn(T, T) -> bool,
    p: spec_fn(T) -> bool,
)
    requires
        forall|a: T, b: T| p(a) && p(b) ==> !#[trigger] precedes(a, b),
    ensures
        chosen(in_order(s, precedes), p) == chosen(s, p),
    decreases s.len(),
{
    if s.len() > 0 {
        law_in_order_keeps_ties(s.drop_last(), precedes, p);
        lemma_inserted_keeps_ties(in_order(s.drop_last(), precedes), s.last(), precedes, p);
    }
}

proof fn lemma_inserted_keeps_ties<T>(
    s: Seq<T>,
    x: T,
    precedes: spec_fn(T, T) -> bool,
    p: spec_fn(T) -> bool,
)
    requires
        forall|a: T, b: T| p(a) && p(b) ==> !#[trigger] precedes(a, b),
    ensures
        chosen(inserted(s, x, precedes), p) == (if p(x) {
            chosen(s, p).push(x)
        } else {
            chosen(s, p)
        }),
    decreases s.len(),
{
    let r = inserted(s, x, precedes);
    if s.len() > 0 && precedes(x, s.last()) {
        lemma_inserted_keeps_ties(s.drop_last(), x, precedes, p);
        assert(r.drop_last() =~= inserted(s.drop_last(), x, precedes));
    } else {
        assert(r.drop_last() =~= s);
    }
}

} // verus!
