//! Picking items of a list by a condition.

use vstd::prelude::*;

use crate::screen::put;
use crate::text;

verus! {

/// The places below `n` where a condition holds, in rising order.
pub open spec fn places(n: nat, p: spec_fn(int) -> bool) -> Seq<usize>
    decreases n,
{
    if n == 0 {
        Seq::empty()
    } else if p(n - 1) {
        places((n - 1) as nat, p).push((n - 1) as usize)
    } else {
        places((n - 1) as nat, p)
    }
}

/// The items of a list for which a condition holds, in their order.
pub open spec fn chosen<T>(s: Seq<T>, p: spec_fn(T) -> bool) -> Seq<T>
    decreases s.len(),
{
    if s.len() == 0 {
        Seq::empty()
    } else if p(s.last()) {
        chosen(s.drop_last(), p).push(s.last())
    } else {
        chosen(s.drop_last(), p)
    }
}

/// How many items of a list meet a condition.
pub open spec fn tally<T>(s: Seq<T>, p: spec_fn(T) -> bool) -> nat {
    chosen(s, p).len()
}

/// The first place from `from` on where a condition holds, or the length.
pub open spec fn first_place<T>(s: Seq<T>, from: nat, p: spec_fn(T) -> bool) -> nat
    decreases s.len() - from,
{
    if from >= s.len() {
        s.len()
    } else if p(s[from as int]) {
        from
    } else {
        first_place(s, from + 1, p)
    }
}

/// The sum of some numbers.
pub open spec fn total(s: Seq<nat>) -> nat
    decreases s.len(),
{
    if s.len() == 0 {
        0
    } else {
        total(s.drop_last()) + s.last()
    }
}

/// The places where a condition holds are exactly those that are listed, each
/// once and in rising order.
pub proof fn law_places(n: nat, p: spec_fn(int) -> bool)
    requires
        n <= usize::MAX + 1,
    ensures
        places(n, p).len() <= n,
        forall|i: int|
            0 <= i < places(n, p).len() ==> (#[trigger] places(n, p)[i]) < n && p(
                places(n, p)[i] as int,
            ),
        forall|i: int, j: int|
            0 <= i < j < places(n, p).len() ==> places(n, p)[i] < places(n, p)[j],
        forall|k: int| 0 <= k < n && #[trigger] p(k) ==> places(n, p).contains(k as usize),
    decreases n,
{
    if n > 0 {
        let m = (n - 1) as nat;
        law_places(m, p);
        let before = places(m, p);
        let after = places(n, p);
        assert forall|k: int| 0 <= k < n && #[trigger] p(k) implies after.contains(k as usize) by {
            if k == n - 1 {
                assert(after[after.len() - 1] == k as usize);
            } else {
                let i = choose|i: int| 0 <= i < before.len() && before[i] == k as usize;
                assert(after[i] == k as usize);
            }
        }
    }
}

/// What is chosen of a list meets the condition, comes from the list, and is
/// no longer than the list.
pub proof fn law_chosen<T>(s: Seq<T>, p: spec_fn(T) -> bool)
    ensures
        chosen(s, p).len() <= s.len(),
        forall|i: int|
            0 <= i < chosen(s, p).len() ==> p(#[trigger] chosen(s, p)[i]) && s.contains(
                chosen(s, p)[i],
            ),
        forall|k: int| 0 <= k < s.len() && p(#[trigger] s[k]) ==> chosen(s, p).contains(s[k]),
        (forall|k: int| 0 <= k < s.len() ==> p(#[trigger] s[k])) ==> chosen(s, p) == s,
        (forall|k: int| 0 <= k < s.len() ==> !p(#[trigger] s[k])) ==> chosen(s, p).len() == 0,
    decreases s.len(),
{
    if s.len() > 0 {
        let t = s.drop_last();
        law_chosen(t, p);
        let before = chosen(t, p);
        let after = chosen(s, p);
        assert forall|i: int| 0 <= i < after.len() implies p(#[trigger] after[i]) && s.contains(
            after[i],
        ) by {
            if i < before.len() {
                assert(after[i] == before[i]);
                let j = choose|j: int| 0 <= j < t.len() && t[j] == before[i];
                assert(s[j] == after[i]);
            } else {
                assert(s[s.len() - 1] == after[i]);
            }
        }
        assert forall|k: int| 0 <= k < s.len() && p(#[trigger] s[k]) implies after.contains(
            s[k],
        ) by {
            if k == s.len() - 1 {
                assert(after[after.len() - 1] == s[k]);
            } else {
                assert(t[k] == s[k]);
                let i = choose|i: int| 0 <= i < before.len() && before[i] == t[k];
                assert(after[i] == s[k]);
            }
        }
        if forall|k: int| 0 <= k < s.len() ==> p(#[trigger] s[k]) {
            assert(p(s[s.len() - 1]));
            assert forall|k: int| 0 <= k < t.len() implies p(#[trigger] t[k]) by {
                assert(p(s[k]));
            }
            assert(after =~= s);
        }
        if forall|k: int| 0 <= k < s.len() ==> !p(#[trigger] s[k]) {
            assert(!p(s[s.len() - 1]));
            assert forall|k: int| 0 <= k < t.len() implies !p(#[trigger] t[k]) by {
                assert(!p(s[k]));
            }
        }
    } else {
        assert(chosen(s, p) =~= s);
    }
}

/// The first place found is the first at which the condition holds.
pub proof fn law_first_place<T>(s: Seq<T>, from: nat, p: spec_fn(T) -> bool)
    ensures
        first_place(s, from, p) <= s.len(),
        first_place(s, from, p) < s.len() ==> from <= first_place(s, from, p) && p(
            s[first_place(s, from, p) as int],
        ),
        forall|k: int| from <= k < first_place(s, from, p) ==> !p(#[trigger] s[k]),
    decreases s.len() - from,
{
    if from < s.len() && !p(s[from as int]) {
        law_first_place(s, from + 1, p);
    }
}

/// A prefix one longer chooses the next item or not.
pub proof fn lemma_chosen_step<T>(s: Seq<T>, i: int, p: spec_fn(T) -> bool)
    requires
        0 <= i < s.len(),
    ensures
        chosen(s.take(i + 1), p) == (if p(s[i]) {
            chosen(s.take(i), p).push(s[i])
        } else {
            chosen(s.take(i), p)
        }),
        s.take(s.len() as int) == s,
        s.take(0) == Seq::<T>::empty(),
        chosen(s.take(0), p) == Seq::<T>::empty(),
{
    assert(s.take(i + 1).drop_last() =~= s.take(i));
    assert(s.take(s.len() as int) =~= s);
    assert(s.take(0) =~= Seq::<T>::empty());
}

/// Nothing is chosen of an empty prefix.
pub proof fn lemma_chosen_start<T>(s: Seq<T>, p: spec_fn(T) -> bool)
    ensures
        s.take(s.len() as int) == s,
        s.take(0) == Seq::<T>::empty(),
        chosen(s.take(0), p) == Seq::<T>::empty(),
{
    assert(s.take(s.len() as int) =~= s);
    assert(s.take(0) =~= Seq::<T>::empty());
}

/// What a function makes of the items of a list that meet a condition.
pub open spec fn picked<T, U>(s: Seq<T>, p: spec_fn(T) -> bool, g: spec_fn(T) -> U) -> Seq<U> {
    chosen(s, p).map_values(g)
}

/// A prefix one longer picks the next item or not.
pub proof fn lemma_picked_step<T, U>(
    s: Seq<T>,
    i: int,
    p: spec_fn(T) -> bool,
    g: spec_fn(T) -> U,
)
    requires
        0 <= i < s.len(),
    ensures
        picked(s.take(i + 1), p, g) == (if p(s[i]) {
            picked(s.take(i), p, g).push(g(s[i]))
        } else {
            picked(s.take(i), p, g)
        }),
{
    lemma_chosen_step(s, i, p);
    if p(s[i]) {
        assert(chosen(s.take(i), p).push(s[i]).map_values(g) =~= picked(s.take(i), p, g).push(
            g(s[i]),
        ));
    }
}

/// Nothing is picked of an empty prefix.
pub proof fn lemma_picked_start<T, U>(s: Seq<T>, p: spec_fn(T) -> bool, g: spec_fn(T) -> U)
    ensures
        s.take(s.len() as int) == s,
        picked(s.take(0), p, g) == Seq::<U>::empty(),
{
    lemma_chosen_start(s, p);
    assert(picked(s.take(0), p, g) =~= Seq::<U>::empty());
}

/// What is picked is what the function makes of the items that meet the condition,
/// and nothing else.
pub proof fn law_picked<T, U>(s: Seq<T>, p: spec_fn(T) -> bool, g: spec_fn(T) -> U)
    ensures
        picked(s, p, g).len() == tally(s, p),
        forall|y: U|
            #![trigger picked(s, p, g).contains(y)]
            picked(s, p, g).contains(y) <==> exists|k: int|
                0 <= k < s.len() && p(#[trigger] s[k]) && g(s[k]) == y,
{
    law_chosen(s, p);
    let c = chosen(s, p);
    let r = picked(s, p, g);
    assert forall|y: U| #![trigger r.contains(y)] r.contains(y) <==> exists|k: int|
        0 <= k < s.len() && p(#[trigger] s[k]) && g(s[k]) == y by {
        if r.contains(y) {
            let i = choose|i: int| 0 <= i < r.len() && r[i] == y;
            assert(p(c[i]) && s.contains(c[i]));
            let k = choose|k: int| 0 <= k < s.len() && s[k] == c[i];
            assert(p(s[k]) && g(s[k]) == y);
        }
        if exists|k: int| 0 <= k < s.len() && p(#[trigger] s[k]) && g(s[k]) == y {
            let k = choose|k: int| 0 <= k < s.len() && p(#[trigger] s[k]) && g(s[k]) == y;
            assert(c.contains(s[k]));
            let i = choose|i: int| 0 <= i < c.len() && c[i] == s[k];
            assert(r[i] == y);
        }
    }
}

/// What is chosen of a list and another behind it is what is chosen of the one,
/// and then what is chosen of the other.
pub proof fn law_chosen_joined<T>(a: Seq<T>, b: Seq<T>, p: spec_fn(T) -> bool)
    ensures
        chosen(a + b, p) == chosen(a, p) + chosen(b, p),
    decreases b.len(),
{
    if b.len() == 0 {
        assert(a + b =~= a);
        assert(chosen(a, p) + chosen(b, p) =~= chosen(a, p));
    } else {
        law_chosen_joined(a, b.drop_last(), p);
        assert((a + b).drop_last() =~= a + b.drop_last());
        assert((a + b).last() == b.last());
        assert(chosen(a + b, p) =~= chosen(a, p) + chosen(b, p));
    }
}

/// What is picked of a list and another behind it is what is picked of the one,
/// and then what is picked of the other.
pub proof fn law_picked_joined<T, U>(
    a: Seq<T>,
    b: Seq<T>,
    p: spec_fn(T) -> bool,
    g: spec_fn(T) -> U,
)
    ensures
        picked(a + b, p, g) == picked(a, p, g) + picked(b, p, g),
{
    law_chosen_joined(a, b, p);
    assert((chosen(a, p) + chosen(b, p)).map_values(g) =~= picked(a, p, g) + picked(b, p, g));
}

/// Every item that meets the condition is counted, and every one once.
pub proof fn law_tally<T>(s: Seq<T>, p: spec_fn(T) -> bool)
    ensures
        tally(s, p) > 0 <==> exists|k: int| 0 <= k < s.len() && p(#[trigger] s[k]),
        tally(s, p) + tally(s, |x: T| !p(x)) == s.len(),
    decreases s.len(),
{
    law_chosen(s, p);
    let q = |x: T| !p(x);
    if s.len() > 0 {
        law_tally(s.drop_last(), p);
    }
    if tally(s, p) > 0 {
        let x = chosen(s, p)[0];
        assert(p(x) && s.contains(x));
        let k = choose|k: int| 0 <= k < s.len() && s[k] == x;
        assert(p(s[k]));
    }
}

/// A list without its repetitions, each item at its first place.
pub open spec fn distinct<T>(s: Seq<T>) -> Seq<T>
    decreases s.len(),
{
    if s.len() == 0 {
        Seq::empty()
    } else {
        let r = distinct(s.drop_last());
        if r.contains(s.last()) {
            r
        } else {
            r.push(s.last())
        }
    }
}

/// A list without its repetitions holds the same items, each once.
pub proof fn law_distinct<T>(s: Seq<T>)
    ensures
        distinct(s).len() <= s.len(),
        distinct(s).no_duplicates(),
        forall|x: T| #[trigger] distinct(s).contains(x) <==> s.contains(x),
    decreases s.len(),
{
    if s.len() > 0 {
        let t = s.drop_last();
        law_distinct(t);
        let before = distinct(t);
        let after = distinct(s);
        assert forall|x: T| #[trigger] after.contains(x) <==> s.contains(x) by {
            if after.contains(x) {
                let i = choose|i: int| 0 <= i < after.len() && after[i] == x;
                if i < before.len() {
                    assert(before[i] == x);
                    assert(before.contains(x));
                    let j = choose|j: int| 0 <= j < t.len() && t[j] == x;
                    assert(s[j] == x);
                } else {
                    assert(s[s.len() - 1] == x);
                }
            }
            if s.contains(x) {
                let j = choose|j: int| 0 <= j < s.len() && s[j] == x;
                if j < t.len() {
                    assert(t[j] == x);
                    assert(before.contains(x));
                    let i = choose|i: int| 0 <= i < before.len() && before[i] == x;
                    assert(after[i] == x);
                } else if before.contains(x) {
                    assert(after == before);
                } else {
                    assert(after[after.len() - 1] == x);
                }
            }
        }
    }
}

/// A prefix one longer adds its last item unless it was there.
pub proof fn lemma_distinct_step<T>(s: Seq<T>, i: int)
    requires
        0 <= i < s.len(),
    ensures
        distinct(s.take(i + 1)) == (if distinct(s.take(i)).contains(s[i]) {
            distinct(s.take(i))
        } else {
            distinct(s.take(i)).push(s[i])
        }),
{
    assert(s.take(i + 1).drop_last() =~= s.take(i));
}

/// All items of some lists, one list after the other.
pub open spec fn flat<T>(s: Seq<Seq<T>>) -> Seq<T>
    decreases s.len(),
{
    if s.len() == 0 {
        Seq::empty()
    } else {
        flat(s.drop_last()) + s.last()
    }
}

/// Adds a string to some strings unless it is there.
pub fn put_new(v: &mut Vec<String>, s: String)
    ensures
        final(v).deep_view() == (if old(v).deep_view().contains(s@) {
            old(v).deep_view()
        } else {
            old(v).deep_view().push(s@)
        }),
{
    if !text::among(v, s.as_str()) {
        put(v, s);
    }
}

/// Puts another item in the place of one.
pub fn set_item<T: DeepView>(v: &mut Vec<T>, i: usize, x: T)
    requires
        i < old(v).len(),
    ensures
        final(v).deep_view() == old(v).deep_view().update(i as int, x.deep_view()),
        final(v)@ == old(v)@.update(i as int, x),
{
    let ghost before = v.deep_view();
    v[i] = x;
    proof {
        assert(v.deep_view() =~= before.update(i as int, x.deep_view()));
    }
}

/// Puts an item in at a place.
pub fn insert_item<T: DeepView>(v: &mut Vec<T>, i: usize, x: T)
    requires
        i <= old(v).len(),
    ensures
        final(v).deep_view() == old(v).deep_view().insert(i as int, x.deep_view()),
        final(v)@ == old(v)@.insert(i as int, x),
{
    let ghost before = v.deep_view();
    v.insert(i, x);
    proof {
        assert(v.deep_view() =~= before.insert(i as int, x.deep_view()));
    }
}

/// Takes the item at a place out.
pub fn remove_item<T: DeepView>(v: &mut Vec<T>, i: usize)
    requires
        i < old(v).len(),
    ensures
        final(v).deep_view() == old(v).deep_view().remove(i as int),
        final(v)@ == old(v)@.remove(i as int),
{
    let ghost before = v.deep_view();
    v.remove(i);
    proof {
        assert(v.deep_view() =~= before.remove(i as int));
    }
}

/// A copy of some places.
pub fn same_places(v: &Vec<usize>) -> (r: Vec<usize>)
    ensures
        r@ == v@,
{
    let mut out: Vec<usize> = Vec::new();
    for i in 0..v.len()
        invariant
            out@ == v@.take(i as int),
    {
        out.push(v[i]);
        proof {
            assert(v@.take(i as int + 1) =~= v@.take(i as int).push(v@[i as int]));
        }
    }
    proof {
        assert(v@.take(v.len() as int) =~= v@);
    }
    out
}

} // verus!
