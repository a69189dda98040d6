//! Squashing the values of a tag into one: which values of a file go.

use std::collections::HashSet;

use vstd::prelude::*;

use crate::lists::{chosen, lemma_chosen_start, lemma_chosen_step, lemma_picked_start, lemma_picked_step, picked};
use crate::screen::{nothing, put};
use crate::tag_canonicity::data::{TagVariantEntry, VariantModel};
use crate::text::{self, same_but_case};

verus! {

/// The values at the selected ones of the first `n` places, in order.
pub open spec fn values_at(
    variants: Seq<VariantModel>,
    selected: Set<usize>,
    n: nat,
) -> Seq<Seq<char>>
    decreases n,
{
    if n == 0 {
        Seq::empty()
    } else {
        let before = values_at(variants, selected, (n - 1) as nat);
        if selected.contains((n - 1) as usize) {
            before.push(variants[n - 1].value)
        } else {
            before
        }
    }
}

/// The values of the selected variants.
pub fn selected_values(variants: &Vec<TagVariantEntry>, selected: &HashSet<usize>) -> (r: Vec<
    String,
>)
    ensures
        r.deep_view() == values_at(variants.deep_view(), selected@, variants.len() as nat),
{
    let mut out: Vec<String> = nothing();
    let mut i: usize = 0;
    while i < variants.len()
        invariant
            i <= variants.len(),
            out.deep_view() == values_at(variants.deep_view(), selected@, i as nat),
        decreases variants.len() - i,
    {
        if selected.contains(&i) {
            put(&mut out, variants[i].value.clone());
        }
        i = i + 1;
    }
    out
}

/// The condition of being of a tag, whose name is taken without regard to case.
pub open spec fn of_tag(tag_name: Seq<char>) -> spec_fn((Seq<char>, Seq<char>)) -> bool {
    |t: (Seq<char>, Seq<char>)| same_but_case(t.0, tag_name)
}

/// The value of a tag.
pub open spec fn value_of() -> spec_fn((Seq<char>, Seq<char>)) -> Seq<char> {
    |t: (Seq<char>, Seq<char>)| t.1
}

/// The values that a file has of a tag.
pub open spec fn values_of(tags: Seq<(Seq<char>, Seq<char>)>, tag_name: Seq<char>) -> Seq<
    Seq<char>,
> {
    picked(tags, of_tag(tag_name), value_of())
}

/// The values that a file has of a tag.
pub fn tag_values(tags: &Vec<(String, String)>, tag_name: &str) -> (r: Vec<String>)
    ensures
        r.deep_view() == values_of(tags.deep_view(), tag_name@),
{
    let ghost s = tags.deep_view();
    let mut out: Vec<String> = nothing();
    proof {
        lemma_picked_start(s, of_tag(tag_name@), value_of());
    }
    let mut i: usize = 0;
    while i < tags.len()
        invariant
            i <= tags.len(),
            s == tags.deep_view(),
            out.deep_view() == picked(s.take(i as int), of_tag(tag_name@), value_of()),
        decreases tags.len() - i,
    {
        proof {
            lemma_picked_step(s, i as int, of_tag(tag_name@), value_of());
            assert(s[i as int] == (tags[i as int].0@, tags[i as int].1@));
        }
        if text::equal_but_case(tags[i].0.as_str(), tag_name) {
            put(&mut out, tags[i].1.clone());
        }
        i = i + 1;
    }
    proof {
        assert(s.take(s.len() as int) =~= s);
    }
    out
}

/// The condition of being selected, and not what the values are squashed to.
pub open spec fn goes(selected: Seq<Seq<char>>, canonical: Seq<char>) -> spec_fn(Seq<char>) -> bool {
    |v: Seq<char>| selected.contains(v) && v != canonical
}

/// The values that go.
pub fn going(values: &Vec<String>, selected: &Vec<String>, canonical: &str) -> (r: Vec<String>)
    ensures
        r.deep_view() == chosen(values.deep_view(), goes(selected.deep_view(), canonical@)),
{
    let ghost s = values.deep_view();
    let ghost p = goes(selected.deep_view(), canonical@);
    let mut out: Vec<String> = nothing();
    proof {
        lemma_chosen_start(s, p);
    }
    let mut i: usize = 0;
    while i < values.len()
        invariant
            i <= values.len(),
            s == values.deep_view(),
            p == goes(selected.deep_view(), canonical@),
            out.deep_view() == chosen(s.take(i as int), p),
        decreases values.len() - i,
    {
        proof {
            lemma_chosen_step(s, i as int, p);
        }
        if text::among(selected, values[i].as_str()) && !text::same(
            values[i].as_str(),
            canonical,
        ) {
            put(&mut out, values[i].clone());
        }
        i = i + 1;
    }
    proof {
        assert(s.take(s.len() as int) =~= s);
    }
    out
}

// ---------------------------------------------------------------------------
// Laws
// ---------------------------------------------------------------------------

/// Whether a value is that of a selected variant.
pub open spec fn is_picked(variants: Seq<VariantModel>, selected: Set<usize>, v: Seq<char>) -> bool {
    exists|i: usize|
        #[trigger] selected.contains(i) && i < variants.len() && variants[i as int].value == v
}

/// The values to be squashed are those of the selected variants, and no others:
/// one for each, in the order of the variants.
pub proof fn law_selected_values(variants: Seq<VariantModel>, selected: Set<usize>, n: nat)
    requires
        n <= variants.len() <= usize::MAX,
    ensures
        forall|v: Seq<char>|
            #![trigger values_at(variants, selected, n).contains(v)]
            values_at(variants, selected, n).contains(v) <==> is_picked(
                variants.take(n as int),
                selected,
                v,
            ),
        n > 0 && selected.contains((n - 1) as usize) ==> values_at(variants, selected, n)
            == values_at(variants, selected, (n - 1) as nat).push(variants[n - 1].value),
    decreases n,
{
    if n > 0 {
        let m = (n - 1) as nat;
        law_selected_values(variants, selected, m);
        let before = values_at(variants, selected, m);
        let after = values_at(variants, selected, n);
        assert forall|v: Seq<char>| #![trigger after.contains(v)] after.contains(v) <==> is_picked(
            variants.take(n as int),
            selected,
            v,
        ) by {
            if after.contains(v) {
                let k = choose|k: int| 0 <= k < after.len() && after[k] == v;
                if k < before.len() {
                    assert(before[k] == v);
                    assert(before.contains(v));
                    let i = choose|i: usize|
                        #[trigger] selected.contains(i) && i < m && variants.take(
                            m as int,
                        )[i as int].value == v;
                    assert(selected.contains(i) && variants.take(n as int)[i as int].value == v);
                } else {
                    assert(selected.contains(m as usize));
                    assert(variants.take(n as int)[m as int].value == v);
                }
            }
            if is_picked(variants.take(n as int), selected, v) {
                let i = choose|i: usize|
                    #[trigger] selected.contains(i) && i < n && variants.take(
                        n as int,
                    )[i as int].value == v;
                if i < m {
                    assert(selected.contains(i) && variants.take(m as int)[i as int].value == v);
                    assert(before.contains(v));
                    let k = choose|k: int| 0 <= k < before.len() && before[k] == v;
                    assert(after[k] == v);
                } else {
                    assert(after[after.len() - 1] == v);
                }
            }
        }
    }
}

/// The values that go are exactly the selected ones among the values of the tag
/// that differ from the canonical one.
pub proof fn law_values_that_go(
    tags: Seq<(Seq<char>, Seq<char>)>,
    tag_name: Seq<char>,
    selected: Seq<Seq<char>>,
    canonical: Seq<char>,
)
    ensures
        forall|v: Seq<char>|
            #![trigger chosen(values_of(tags, tag_name), goes(selected, canonical)).contains(v)]
            chosen(values_of(tags, tag_name), goes(selected, canonical)).contains(v) <==> (
            selected.contains(v) && v != canonical && exists|j: int|
                0 <= j < tags.len() && same_but_case((#[trigger] tags[j]).0, tag_name) && tags[j].1
                    == v),
{
    let p = goes(selected, canonical);
    let named = chosen(tags, of_tag(tag_name));
    let values = values_of(tags, tag_name);
    let gone = chosen(values, p);
    crate::lists::law_chosen(tags, of_tag(tag_name));
    crate::lists::law_chosen(values, p);
    assert forall|v: Seq<char>| #![trigger gone.contains(v)] gone.contains(v) <==> (
    selected.contains(v) && v != canonical && exists|j: int|
        0 <= j < tags.len() && same_but_case((#[trigger] tags[j]).0, tag_name) && tags[j].1
            == v) by {
        if gone.contains(v) {
            let k = choose|k: int| 0 <= k < gone.len() && gone[k] == v;
            assert(p(gone[k]));
            assert(values.contains(gone[k]));
            let l = choose|l: int| 0 <= l < values.len() && values[l] == v;
            assert(of_tag(tag_name)(named[l]));
            assert(tags.contains(named[l]));
            let j = choose|j: int| 0 <= j < tags.len() && tags[j] == named[l];
            assert(same_but_case(tags[j].0, tag_name) && tags[j].1 == v);
        }
        if selected.contains(v) && v != canonical && exists|j: int|
            0 <= j < tags.len() && same_but_case((#[trigger] tags[j]).0, tag_name) && tags[j].1
                == v {
            let j = choose|j: int|
                0 <= j < tags.len() && same_but_case((#[trigger] tags[j]).0, tag_name) && tags[j].1
                    == v;
            assert(of_tag(tag_name)(tags[j]));
            assert(named.contains(tags[j]));
            let l = choose|l: int| 0 <= l < named.len() && named[l] == tags[j];
            assert(values[l] == v);
            assert(p(values[l]));
            assert(gone.contains(values[l]));
        }
    }
}

} // verus!
