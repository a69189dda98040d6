//! From edited fields to changes, and from changes to what is asked of the
//! library.

use vstd::prelude::*;

use crate::corpus::{adding, dropping, replacing, AudioFile, AudioFileModel, Mutation, MutationModel, TagOp, TagOpModel};
use crate::lists::{chosen, distinct, first_place, flat, lemma_distinct_step, lemma_picked_start, lemma_picked_step, picked, put_new};
use crate::ordering::{in_order, sorted, Ranked};
use crate::screen::{nothing, put, put_all};
use crate::tag_editor::types::{AggregatedTagField, AggregatedTagFieldModel, AggregatedValue, AggregatedValueModel, TagChange, TagChangeModel, TagField, TagFieldModel};
use crate::text::{self, lowercase, text_before, uppercase};

verus! {

// ---------------------------------------------------------------------------
// Loading
// ---------------------------------------------------------------------------

/// The line of the editor that creates a tag.
pub open spec fn new_tag_line() -> TagFieldModel {
    TagFieldModel {
        name: "New Tag"@,
        value: "[Press Enter to create]"@,
        editable: true,
        deleted: false,
    }
}

/// A tag of a file as a field.
pub open spec fn as_field(tag: (Seq<char>, Seq<char>)) -> TagFieldModel {
    TagFieldModel { name: tag.0, value: tag.1, editable: true, deleted: false }
}

/// Fields stand in the alphabetical order of their names, whatever the case.
impl Ranked for TagField {
    open spec fn precedes(a: TagFieldModel, b: TagFieldModel) -> bool {
        text_before(uppercase(a.name), uppercase(b.name))
    }

    fn before(&self, other: &Self) -> (r: bool) {
        text::comes_before(
            text::to_uppercase(self.name.as_str()).as_str(),
            text::to_uppercase(other.name.as_str()).as_str(),
        )
    }
}

/// Whether one field comes before another alphabetically.
pub open spec fn by_name() -> spec_fn(TagFieldModel, TagFieldModel) -> bool {
    |a: TagFieldModel, b: TagFieldModel| TagField::precedes(a, b)
}

/// Tags as fields, in alphabetical order.
pub open spec fn sorted_fields(tags: Seq<(Seq<char>, Seq<char>)>) -> Seq<TagFieldModel> {
    in_order(tags.map_values(|t: (Seq<char>, Seq<char>)| as_field(t)), by_name())
}

/// Tags as fields, in alphabetical order.
pub fn tags_to_fields(tags: Vec<(String, String)>) -> (r: Vec<TagField>)
    ensures
        r.deep_view() == sorted_fields(tags.deep_view()),
{
    let mut fields: Vec<TagField> = nothing();
    let n: usize = tags.len();
    let mut i: usize = 0;
    while i < n
        invariant
            n == tags.len(),
            i <= n,
            fields.len() == i,
            forall|j: int|
                0 <= j < i ==> (#[trigger] fields[j]).deep_view() == as_field(
                    tags.deep_view()[j],
                ),
        decreases n - i,
    {
        fields.push(
            TagField {
                name: tags[i].0.clone(),
                value: tags[i].1.clone(),
                editable: true,
                deleted: false,
            },
        );
        i = i + 1;
    }
    proof {
        assert(fields.deep_view() =~= tags.deep_view().map_values(
            |t: (Seq<char>, Seq<char>)| as_field(t),
        ));
    }
    sorted(fields)
}

/// The fields of a file whose tags were read from disk: every tag value as a
/// field, in alphabetical order, then the line that creates a tag. A file whose
/// tags could not be read has that line alone.
pub open spec fn fields_from_disk(tags: Option<Seq<(Seq<char>, Seq<char>)>>) -> Seq<TagFieldModel> {
    match tags {
        Some(t) => sorted_fields(t).push(new_tag_line()),
        None => seq![new_tag_line()],
    }
}

/// The fields of an audio file, from the tags that were read from disk.
pub fn audio_file_to_tag_fields(tags: Option<Vec<(String, String)>>) -> (r: Vec<TagField>)
    ensures
        r.deep_view() == fields_from_disk(tags.deep_view()),
{
    let mut fields: Vec<TagField> = match tags {
        Some(t) => tags_to_fields(t),
        None => nothing(),
    };
    put(
        &mut fields,
        TagField {
            name: "New Tag".to_owned(),
            value: "[Press Enter to create]".to_owned(),
            editable: true,
            deleted: false,
        },
    );
    fields
}

// ---------------------------------------------------------------------------
// Changes
// ---------------------------------------------------------------------------

/// Whether a field is the line that creates a tag.
pub open spec fn creates(f: TagFieldModel) -> bool {
    f.name == "New Tag"@
}

/// Whether a field is a value of the tag with a name in lower case.
pub open spec fn bears(f: TagFieldModel, name: Seq<char>) -> bool {
    !creates(f) && lowercase(f.name) == name
}

/// The condition of being a value of a tag.
pub open spec fn bearing(name: Seq<char>) -> spec_fn(TagFieldModel) -> bool {
    |f: TagFieldModel| bears(f, name)
}

/// Whether a tag has a value among some fields, marked for deletion or not.
pub open spec fn has_value(fields: Seq<TagFieldModel>, name: Seq<char>, value: Seq<char>) -> bool {
    exists|i: int|
        0 <= i < fields.len() && bears(#[trigger] fields[i], name) && fields[i].value == value
}

/// The names of the tags of a file before and after, in lower case, in the
/// order in which they first occur.
pub open spec fn tag_names(orig: Seq<TagFieldModel>, curr: Seq<TagFieldModel>) -> Seq<Seq<char>> {
    distinct(picked(orig + curr, real_tags(), lower_name()))
}

/// The condition of being a tag, not the line that creates one.
pub open spec fn real_tags() -> spec_fn(TagFieldModel) -> bool {
    |f: TagFieldModel| !creates(f)
}

/// The name of a field in lower case.
pub open spec fn lower_name() -> spec_fn(TagFieldModel) -> Seq<char> {
    |f: TagFieldModel| lowercase(f.name)
}

/// The name to show for a tag: as its first field now has it, else as its
/// first field had it.
pub open spec fn shown_name(
    orig: Seq<TagFieldModel>,
    curr: Seq<TagFieldModel>,
    name: Seq<char>,
) -> Seq<char> {
    let c = first_place(curr, 0, bearing(name));
    let o = first_place(orig, 0, bearing(name));
    if c < curr.len() {
        curr[c as int].name
    } else if o < orig.len() {
        orig[o as int].name
    } else {
        name
    }
}

/// The condition of being a value that is marked for deletion.
pub open spec fn marked(name: Seq<char>) -> spec_fn(TagFieldModel) -> bool {
    |f: TagFieldModel| bears(f, name) && f.deleted
}

/// The condition of being a value that the tag did not have.
pub open spec fn fresh(name: Seq<char>, orig: Seq<TagFieldModel>) -> spec_fn(
    TagFieldModel,
) -> bool {
    |f: TagFieldModel| bears(f, name) && !f.deleted && !has_value(orig, name, f.value)
}

/// The condition of being a value that the tag no longer has.
pub open spec fn gone(name: Seq<char>, curr: Seq<TagFieldModel>) -> spec_fn(TagFieldModel) -> bool {
    |f: TagFieldModel| bears(f, name) && !has_value(curr, name, f.value)
}

/// The removal of a value that is marked for deletion, if the tag had it.
pub open spec fn deletion(
    track_idx: usize,
    shown: Seq<char>,
    orig: Seq<TagFieldModel>,
    name: Seq<char>,
) -> spec_fn(TagFieldModel) -> TagChangeModel {
    |f: TagFieldModel|
        TagChangeModel {
            track_idx,
            field_name: shown,
            old_value: if has_value(orig, name, f.value) {
                f.value
            } else {
                Seq::empty()
            },
            new_value: Seq::empty(),
        }
}

/// The addition of a value.
pub open spec fn addition(track_idx: usize, shown: Seq<char>) -> spec_fn(
    TagFieldModel,
) -> TagChangeModel {
    |f: TagFieldModel|
        TagChangeModel {
            track_idx,
            field_name: shown,
            old_value: Seq::empty(),
            new_value: f.value,
        }
}

/// The removal of a value.
pub open spec fn removal(track_idx: usize, shown: Seq<char>) -> spec_fn(
    TagFieldModel,
) -> TagChangeModel {
    |f: TagFieldModel|
        TagChangeModel {
            track_idx,
            field_name: shown,
            old_value: f.value,
            new_value: Seq::empty(),
        }
}

/// The changes to one tag of a file: the values marked for deletion, then those
/// added, then those that are gone.
pub open spec fn name_changes(
    track_idx: usize,
    name: Seq<char>,
    orig: Seq<TagFieldModel>,
    curr: Seq<TagFieldModel>,
) -> Seq<TagChangeModel> {
    let shown = shown_name(orig, curr, name);
    picked(curr, marked(name), deletion(track_idx, shown, orig, name)) + picked(
        curr,
        fresh(name, orig),
        addition(track_idx, shown),
    ) + picked(orig, gone(name, curr), removal(track_idx, shown))
}

/// The changes to some tags of a file.
pub open spec fn names_changes(
    track_idx: usize,
    names: Seq<Seq<char>>,
    orig: Seq<TagFieldModel>,
    curr: Seq<TagFieldModel>,
) -> Seq<TagChangeModel>
    decreases names.len(),
{
    if names.len() == 0 {
        Seq::empty()
    } else {
        names_changes(track_idx, names.drop_last(), orig, curr) + name_changes(
            track_idx,
            names.last(),
            orig,
            curr,
        )
    }
}

/// The changes to a file.
pub open spec fn file_changes(
    track_idx: usize,
    orig: Seq<TagFieldModel>,
    curr: Seq<TagFieldModel>,
) -> Seq<TagChangeModel> {
    names_changes(track_idx, tag_names(orig, curr), orig, curr)
}

/// The changes to the first `n` files.
pub open spec fn changes_to_first(
    n: nat,
    original: Seq<Seq<TagFieldModel>>,
    current: Seq<Seq<TagFieldModel>>,
) -> Seq<TagChangeModel>
    decreases n,
{
    if n == 0 {
        Seq::empty()
    } else {
        changes_to_first((n - 1) as nat, original, current) + file_changes(
            (n - 1) as usize,
            original[n - 1],
            current[n - 1],
        )
    }
}

/// The changes to all files that there is a before and an after of.
pub open spec fn all_changes(
    original: Seq<Seq<TagFieldModel>>,
    current: Seq<Seq<TagFieldModel>>,
) -> Seq<TagChangeModel> {
    if original.len() < current.len() {
        changes_to_first(original.len(), original, current)
    } else {
        changes_to_first(current.len(), original, current)
    }
}

/// Whether a field is a value of the tag with a name in lower case.
fn is_of(f: &TagField, name: &str) -> (r: bool)
    ensures
        r == bears(f.deep_view(), name@),
{
    !text::same(f.name.as_str(), "New Tag") && text::same(
        text::to_lowercase(f.name.as_str()).as_str(),
        name,
    )
}

/// Whether a tag has a value among some fields.
fn value_among(fields: &Vec<TagField>, name: &str, value: &str) -> (r: bool)
    ensures
        r == has_value(fields.deep_view(), name@, value@),
{
    let mut i: usize = 0;
    while i < fields.len()
        invariant
            i <= fields.len(),
            forall|j: int|
                0 <= j < i ==> !(bears(#[trigger] fields.deep_view()[j], name@)
                    && fields.deep_view()[j].value == value@),
        decreases fields.len() - i,
    {
        if is_of(&fields[i], name) && text::same(fields[i].value.as_str(), value) {
            proof {
                assert(bears(fields.deep_view()[i as int], name@));
            }
            return true;
        }
        i = i + 1;
    }
    false
}

/// The place of the first value of a tag, or the number of fields.
fn first_of(fields: &Vec<TagField>, name: &str) -> (r: usize)
    ensures
        r == first_place(fields.deep_view(), 0, bearing(name@)),
{
    let mut i: usize = 0;
    while i < fields.len() && !is_of(&fields[i], name)
        invariant
            i <= fields.len(),
            first_place(fields.deep_view(), 0, bearing(name@)) == first_place(
                fields.deep_view(),
                i as nat,
                bearing(name@),
            ),
        decreases fields.len() - i,
    {
        i = i + 1;
    }
    i
}

/// The names of the tags of a file before and after, in lower case.
fn names_of(orig: &Vec<TagField>, curr: &Vec<TagField>) -> (r: Vec<String>)
    ensures
        r.deep_view() == tag_names(orig.deep_view(), curr.deep_view()),
{
    let ghost both = orig.deep_view() + curr.deep_view();
    let mut all: Vec<String> = nothing();
    let mut names: Vec<String> = nothing();
    proof {
        lemma_picked_start(both, real_tags(), lower_name());
    }
    let n: usize = orig.len();
    let m: usize = curr.len();
    let mut i: usize = 0;
    while i < n
        invariant
            n == orig.len(),
            m == curr.len(),
            both == orig.deep_view() + curr.deep_view(),
            i <= n,
            all.deep_view() == picked(both.take(i as int), real_tags(), lower_name()),
            names.deep_view() == distinct(all.deep_view()),
        decreases n - i,
    {
        proof {
            lemma_picked_step(both, i as int, real_tags(), lower_name());
            assert(both[i as int] == orig.deep_view()[i as int]);
        }
        if !text::same(orig[i].name.as_str(), "New Tag") {
            let low: String = text::to_lowercase(orig[i].name.as_str());
            let ghost before = all.deep_view();
            put(&mut all, low.clone());
            put_new(&mut names, low);
            proof {
                assert(all.deep_view().drop_last() =~= before);
            }
        }
        i = i + 1;
    }
    let mut k: usize = 0;
    while k < m
        invariant
            n == orig.len(),
            m == curr.len(),
            both == orig.deep_view() + curr.deep_view(),
            k <= m,
            all.deep_view() == picked(both.take(n + k), real_tags(), lower_name()),
            names.deep_view() == distinct(all.deep_view()),
        decreases m - k,
    {
        proof {
            lemma_picked_step(both, n + k, real_tags(), lower_name());
            assert(both[n + k] == curr.deep_view()[k as int]);
        }
        if !text::same(curr[k].name.as_str(), "New Tag") {
            let low: String = text::to_lowercase(curr[k].name.as_str());
            let ghost before = all.deep_view();
            put(&mut all, low.clone());
            put_new(&mut names, low);
            proof {
                assert(all.deep_view().drop_last() =~= before);
            }
        }
        k = k + 1;
    }
    proof {
        assert(both.take(n + m) =~= both);
    }
    names
}

/// The name to show for a tag.
fn display_name(orig: &Vec<TagField>, curr: &Vec<TagField>, name: &str) -> (r: String)
    ensures
        r@ == shown_name(orig.deep_view(), curr.deep_view(), name@),
{
    let c: usize = first_of(curr, name);
    let o: usize = first_of(orig, name);
    if c < curr.len() {
        curr[c].name.clone()
    } else if o < orig.len() {
        orig[o].name.clone()
    } else {
        name.to_owned()
    }
}

/// The changes to one tag of a file.
fn changes_of_name(
    track_idx: usize,
    name: &str,
    orig: &Vec<TagField>,
    curr: &Vec<TagField>,
) -> (r: Vec<TagChange>)
    ensures
        r.deep_view() == name_changes(track_idx, name@, orig.deep_view(), curr.deep_view()),
{
    let shown: String = display_name(orig, curr, name);
    let ghost o = orig.deep_view();
    let ghost c = curr.deep_view();
    let mut dropped: Vec<TagChange> = nothing();
    let mut added: Vec<TagChange> = nothing();
    proof {
        lemma_picked_start(c, marked(name@), deletion(track_idx, shown@, o, name@));
        lemma_picked_start(c, fresh(name@, o), addition(track_idx, shown@));
        lemma_picked_start(o, gone(name@, c), removal(track_idx, shown@));
    }
    let mut i: usize = 0;
    while i < curr.len()
        invariant
            i <= curr.len(),
            o == orig.deep_view(),
            c == curr.deep_view(),
            dropped.deep_view() == picked(
                c.take(i as int),
                marked(name@),
                deletion(track_idx, shown@, o, name@),
            ),
            added.deep_view() == picked(
                c.take(i as int),
                fresh(name@, o),
                addition(track_idx, shown@),
            ),
        decreases curr.len() - i,
    {
        proof {
            lemma_picked_step(
                c,
                i as int,
                marked(name@),
                deletion(track_idx, shown@, o, name@),
            );
            lemma_picked_step(c, i as int, fresh(name@, o), addition(track_idx, shown@));
        }
        if is_of(&curr[i], name) {
            let had: bool = value_among(orig, name, curr[i].value.as_str());
            if curr[i].deleted {
                put(
                    &mut dropped,
                    TagChange {
                        track_idx,
                        field_name: shown.clone(),
                        old_value: if had {
                            curr[i].value.clone()
                        } else {
                            String::new()
                        },
                        new_value: String::new(),
                    },
                );
            } else if !had {
                put(
                    &mut added,
                    TagChange {
                        track_idx,
                        field_name: shown.clone(),
                        old_value: String::new(),
                        new_value: curr[i].value.clone(),
                    },
                );
            }
        }
        i = i + 1;
    }
    let mut removed: Vec<TagChange> = nothing();
    let mut k: usize = 0;
    while k < orig.len()
        invariant
            k <= orig.len(),
            o == orig.deep_view(),
            c == curr.deep_view(),
            removed.deep_view() == picked(
                o.take(k as int),
                gone(name@, c),
                removal(track_idx, shown@),
            ),
        decreases orig.len() - k,
    {
        proof {
            lemma_picked_step(o, k as int, gone(name@, c), removal(track_idx, shown@));
        }
        if is_of(&orig[k], name) && !value_among(curr, name, orig[k].value.as_str()) {
            put(
                &mut removed,
                TagChange {
                    track_idx,
                    field_name: shown.clone(),
                    old_value: orig[k].value.clone(),
                    new_value: String::new(),
                },
            );
        }
        k = k + 1;
    }
    put_all(&mut dropped, added);
    put_all(&mut dropped, removed);
    proof {
        assert(c.take(c.len() as int) =~= c);
        assert(o.take(o.len() as int) =~= o);
    }
    dropped
}

/// The changes between the original and the current fields of all files.
///
/// The values of a tag are compared as such, not by their places, so that tags
/// with several values come out right: a value is added, removed, or marked for
/// deletion.
pub fn compute_changes(original: &Vec<Vec<TagField>>, current: &Vec<Vec<TagField>>) -> (r: Vec<
    TagChange,
>)
    ensures
        r.deep_view() == all_changes(original.deep_view(), current.deep_view()),
{
    let mut changes: Vec<TagChange> = nothing();
    let n: usize = if original.len() < current.len() {
        original.len()
    } else {
        current.len()
    };
    let mut i: usize = 0;
    while i < n
        invariant
            i <= n <= original.len(),
            n <= current.len(),
            changes.deep_view() == changes_to_first(
                i as nat,
                original.deep_view(),
                current.deep_view(),
            ),
        decreases n - i,
    {
        let names: Vec<String> = names_of(&original[i], &current[i]);
        let ghost o = original[i as int].deep_view();
        let ghost c = current[i as int].deep_view();
        let ghost all = names.deep_view();
        let mut of_file: Vec<TagChange> = nothing();
        let mut k: usize = 0;
        proof {
            assert(all.take(0) =~= Seq::<Seq<char>>::empty());
        }
        while k < names.len()
            invariant
                i < n <= original.len(),
                n <= current.len(),
                k <= names.len(),
                all == names.deep_view(),
                o == original[i as int].deep_view(),
                c == current[i as int].deep_view(),
                of_file.deep_view() == names_changes(i, all.take(k as int), o, c),
            decreases names.len() - k,
        {
            put_all(
                &mut of_file,
                changes_of_name(i, names[k].as_str(), &original[i], &current[i]),
            );
            proof {
                assert(all.take(k as int + 1).drop_last() =~= all.take(k as int));
                assert(all.take(k as int + 1).last() == names[k as int]@);
            }
            k = k + 1;
        }
        proof {
            assert(all.take(all.len() as int) =~= all);
            assert(original.deep_view()[i as int] == o);
            assert(current.deep_view()[i as int] == c);
        }
        put_all(&mut changes, of_file);
        i = i + 1;
    }
    changes
}

/// Whether a file is unchanged: every tag has the values it had, whatever their
/// order, and nothing is marked for deletion.
pub open spec fn unchanged(orig: Seq<TagFieldModel>, curr: Seq<TagFieldModel>) -> bool {
    &&& forall|name: Seq<char>, value: Seq<char>|
        has_value(orig, name, value) <==> #[trigger] has_value(curr, name, value)
    &&& forall|i: int| 0 <= i < curr.len() && !creates(#[trigger] curr[i]) ==> !curr[i].deleted
}

/// Files that are unchanged make no changes.
pub proof fn law_unchanged_makes_no_changes(
    original: Seq<Seq<TagFieldModel>>,
    current: Seq<Seq<TagFieldModel>>,
)
    requires
        forall|i: int|
            0 <= i < original.len() && i < current.len() ==> unchanged(
                #[trigger] original[i],
                current[i],
            ),
    ensures
        all_changes(original, current) == Seq::<TagChangeModel>::empty(),
{
    lemma_no_changes_first(
        if original.len() < current.len() {
            original.len()
        } else {
            current.len()
        },
        original,
        current,
    );
}

/// The order of the fields does not matter: fields that only stand in another
/// order, with nothing marked for deletion, make no changes.
pub proof fn law_order_makes_no_changes(
    original: Seq<Seq<TagFieldModel>>,
    current: Seq<Seq<TagFieldModel>>,
)
    requires
        original.len() == current.len(),
        forall|i: int|
            0 <= i < original.len() ==> (#[trigger] original[i]).to_multiset()
                == current[i].to_multiset(),
        forall|i: int, j: int|
            0 <= i < original.len() && 0 <= j < original[i].len() ==> !(
            #[trigger] original[i][j]).deleted,
    ensures
        all_changes(original, current) == Seq::<TagChangeModel>::empty(),
{
    broadcast use vstd::seq_lib::group_to_multiset_ensures;

    assert forall|i: int| 0 <= i < original.len() && i < current.len() implies unchanged(
        #[trigger] original[i],
        current[i],
    ) by {
        let o = original[i];
        let c = current[i];
        assert forall|f: TagFieldModel| o.contains(f) <==> c.contains(f) by {
            assert(o.to_multiset().count(f) == c.to_multiset().count(f));
        }
        assert forall|name: Seq<char>, value: Seq<char>| has_value(o, name, value)
            <==> #[trigger] has_value(c, name, value) by {
            if has_value(o, name, value) {
                let k = choose|k: int|
                    0 <= k < o.len() && bears(#[trigger] o[k], name) && o[k].value == value;
                assert(c.contains(o[k]));
                let l = choose|l: int| 0 <= l < c.len() && c[l] == o[k];
                assert(bears(c[l], name));
            }
            if has_value(c, name, value) {
                let k = choose|k: int|
                    0 <= k < c.len() && bears(#[trigger] c[k], name) && c[k].value == value;
                assert(o.contains(c[k]));
                let l = choose|l: int| 0 <= l < o.len() && o[l] == c[k];
                assert(bears(o[l], name));
            }
        }
        assert forall|k: int| 0 <= k < c.len() && !creates(#[trigger] c[k]) implies !c[k].deleted by {
            assert(o.contains(c[k]));
            let l = choose|l: int| 0 <= l < o.len() && o[l] == c[k];
            assert(!original[i][l].deleted);
        }
    }
    law_unchanged_makes_no_changes(original, current);
}

proof fn lemma_no_changes_first(
    n: nat,
    original: Seq<Seq<TagFieldModel>>,
    current: Seq<Seq<TagFieldModel>>,
)
    requires
        n <= original.len(),
        n <= current.len(),
        forall|i: int|
            0 <= i < original.len() && i < current.len() ==> unchanged(
                #[trigger] original[i],
                current[i],
            ),
    ensures
        changes_to_first(n, original, current) == Seq::<TagChangeModel>::empty(),
    decreases n,
{
    if n > 0 {
        lemma_no_changes_first((n - 1) as nat, original, current);
        let o = original[n - 1];
        let c = current[n - 1];
        lemma_no_changes_names((n - 1) as usize, tag_names(o, c), o, c);
        assert(changes_to_first(n, original, current) =~= Seq::<TagChangeModel>::empty());
    }
}

/// A file that is unchanged makes no changes to any of its tags.
pub proof fn lemma_no_changes_names(
    track_idx: usize,
    names: Seq<Seq<char>>,
    orig: Seq<TagFieldModel>,
    curr: Seq<TagFieldModel>,
)
    requires
        unchanged(orig, curr),
    ensures
        names_changes(track_idx, names, orig, curr) == Seq::<TagChangeModel>::empty(),
    decreases names.len(),
{
    if names.len() > 0 {
        lemma_no_changes_names(track_idx, names.drop_last(), orig, curr);
        let name = names.last();
        lemma_none_of(curr, marked(name));
        assert forall|k: int| 0 <= k < curr.len() implies !fresh(name, orig)(#[trigger] curr[k]) by {
            if bears(curr[k], name) {
                assert(has_value(curr, name, curr[k].value));
            }
        }
        lemma_none_of(curr, fresh(name, orig));
        assert forall|k: int| 0 <= k < orig.len() implies !gone(name, curr)(#[trigger] orig[k]) by {
            if bears(orig[k], name) {
                assert(has_value(orig, name, orig[k].value));
            }
        }
        lemma_none_of(orig, gone(name, curr));
        assert(name_changes(track_idx, name, orig, curr) =~= Seq::<TagChangeModel>::empty());
    }
}

proof fn lemma_none_of(s: Seq<TagFieldModel>, p: spec_fn(TagFieldModel) -> bool)
    requires
        forall|k: int| 0 <= k < s.len() ==> !p(#[trigger] s[k]),
    ensures
        chosen(s, p).len() == 0,
{
    crate::lists::law_chosen(s, p);
    if chosen(s, p).len() > 0 {
        let x = chosen(s, p)[0];
        assert(s.contains(x));
        let k = choose|k: int| 0 <= k < s.len() && s[k] == x;
        assert(!p(s[k]));
    }
}

/// The changes to a file are marked as changes to it.
pub proof fn lemma_changes_are_of_file(
    track_idx: usize,
    names: Seq<Seq<char>>,
    orig: Seq<TagFieldModel>,
    curr: Seq<TagFieldModel>,
)
    ensures
        forall|k: int|
            0 <= k < names_changes(track_idx, names, orig, curr).len() ==> (
            #[trigger] names_changes(track_idx, names, orig, curr)[k]).track_idx == track_idx,
    decreases names.len(),
{
    if names.len() > 0 {
        lemma_changes_are_of_file(track_idx, names.drop_last(), orig, curr);
        let name = names.last();
        let shown = shown_name(orig, curr, name);
        let a = picked(curr, marked(name), deletion(track_idx, shown, orig, name));
        let b = picked(curr, fresh(name, orig), addition(track_idx, shown));
        let c = picked(orig, gone(name, curr), removal(track_idx, shown));
        let last = name_changes(track_idx, name, orig, curr);
        assert forall|k: int| 0 <= k < last.len() implies (#[trigger] last[k]).track_idx
            == track_idx by {
            if k < a.len() {
                assert(last[k] == a[k]);
            } else if k < a.len() + b.len() {
                assert(last[k] == b[k - a.len()]);
            } else {
                assert(last[k] == c[k - a.len() - b.len()]);
            }
        }
        let before = names_changes(track_idx, names.drop_last(), orig, curr);
        let after = names_changes(track_idx, names, orig, curr);
        assert(after == before + last);
        assert forall|k: int| 0 <= k < after.len() implies (#[trigger] after[k]).track_idx
            == track_idx by {
            if k < before.len() {
                assert(after[k] == before[k]);
            } else {
                assert(after[k] == last[k - before.len()]);
            }
        }
    }
}

/// Where a file has no changes, it is unchanged: every tag has the values it
/// had, whatever their order, and nothing is marked for deletion.
pub proof fn law_no_changes_means_unchanged(
    track_idx: usize,
    orig: Seq<TagFieldModel>,
    curr: Seq<TagFieldModel>,
)
    requires
        file_changes(track_idx, orig, curr) == Seq::<TagChangeModel>::empty(),
    ensures
        unchanged(orig, curr),
{
    let names = tag_names(orig, curr);
    assert forall|i: int| 0 <= i < curr.len() && !creates(#[trigger] curr[i]) implies !curr[i].deleted by {
        let name = lowercase(curr[i].name);
        lemma_name_listed(orig, curr, name, orig.len() + i);
        lemma_no_changes_of_name(track_idx, names, orig, curr, name);
        crate::lists::law_chosen(curr, marked(name));
    }
    assert forall|name: Seq<char>, value: Seq<char>| has_value(orig, name, value)
        <==> #[trigger] has_value(curr, name, value) by {
        if has_value(orig, name, value) && !has_value(curr, name, value) {
            let i = choose|i: int|
                0 <= i < orig.len() && bears(#[trigger] orig[i], name) && orig[i].value == value;
            lemma_name_listed(orig, curr, name, i);
            lemma_no_changes_of_name(track_idx, names, orig, curr, name);
            crate::lists::law_chosen(orig, gone(name, curr));
            assert(gone(name, curr)(orig[i]));
        }
        if has_value(curr, name, value) && !has_value(orig, name, value) {
            let i = choose|i: int|
                0 <= i < curr.len() && bears(#[trigger] curr[i], name) && curr[i].value == value;
            lemma_name_listed(orig, curr, name, orig.len() + i);
            lemma_no_changes_of_name(track_idx, names, orig, curr, name);
            crate::lists::law_chosen(curr, marked(name));
            crate::lists::law_chosen(curr, fresh(name, orig));
            assert(!marked(name)(curr[i]));
            assert(fresh(name, orig)(curr[i]));
        }
    }
}

/// The name of a tag of the file is listed.
proof fn lemma_name_listed(
    orig: Seq<TagFieldModel>,
    curr: Seq<TagFieldModel>,
    name: Seq<char>,
    at: int,
)
    requires
        0 <= at < orig.len() + curr.len(),
        bears((orig + curr)[at], name),
    ensures
        tag_names(orig, curr).contains(name),
{
    let both = orig + curr;
    let all = chosen(both, real_tags());
    crate::lists::law_chosen(both, real_tags());
    assert(real_tags()(both[at]));
    let k = choose|k: int| 0 <= k < all.len() && all[k] == both[at];
    let lows = picked(both, real_tags(), lower_name());
    assert(lows[k] == name);
    assert(lows.contains(name));
    crate::lists::law_distinct(lows);
}

/// No changes at all are no changes to any one tag.
proof fn lemma_no_changes_of_name(
    track_idx: usize,
    names: Seq<Seq<char>>,
    orig: Seq<TagFieldModel>,
    curr: Seq<TagFieldModel>,
    name: Seq<char>,
)
    requires
        names_changes(track_idx, names, orig, curr) == Seq::<TagChangeModel>::empty(),
        names.contains(name),
    ensures
        chosen(curr, marked(name)).len() == 0,
        chosen(curr, fresh(name, orig)).len() == 0,
        chosen(orig, gone(name, curr)).len() == 0,
    decreases names.len(),
{
    let k = choose|k: int| 0 <= k < names.len() && names[k] == name;
    let before = names_changes(track_idx, names.drop_last(), orig, curr);
    let last = name_changes(track_idx, names.last(), orig, curr);
    assert((before + last).len() == 0);
    if k == names.len() - 1 {
        let shown = shown_name(orig, curr, name);
        assert(picked(curr, marked(name), deletion(track_idx, shown, orig, name)).len() == 0);
    } else {
        assert(before =~= Seq::<TagChangeModel>::empty());
        assert(names.drop_last()[k] == name);
        lemma_no_changes_of_name(track_idx, names.drop_last(), orig, curr, name);
    }
}

/// Whether a tag has a value that is not marked for deletion.
pub open spec fn keeps(fields: Seq<TagFieldModel>, name: Seq<char>, value: Seq<char>) -> bool {
    exists|i: int|
        0 <= i < fields.len() && bears(#[trigger] fields[i], name) && fields[i].value == value
            && !fields[i].deleted
}

/// Whether a tag has a value that is marked for deletion.
pub open spec fn marks(fields: Seq<TagFieldModel>, name: Seq<char>, value: Seq<char>) -> bool {
    exists|i: int|
        0 <= i < fields.len() && bears(#[trigger] fields[i], name) && fields[i].value == value
            && fields[i].deleted
}

/// Whether changes take a value away from a tag.
pub open spec fn drops(changes: Seq<TagChangeModel>, name: Seq<char>, value: Seq<char>) -> bool {
    exists|k: int|
        0 <= k < changes.len() && lowercase((#[trigger] changes[k]).field_name) == name
            && changes[k].old_value == value && changes[k].new_value.len() == 0
}

/// Whether changes give a value to a tag.
pub open spec fn adds(changes: Seq<TagChangeModel>, name: Seq<char>, value: Seq<char>) -> bool {
    exists|k: int|
        0 <= k < changes.len() && lowercase((#[trigger] changes[k]).field_name) == name
            && changes[k].old_value.len() == 0 && changes[k].new_value == value
}

/// The name that is shown for a tag of a file is one of its spellings.
proof fn lemma_shown_name(orig: Seq<TagFieldModel>, curr: Seq<TagFieldModel>, name: Seq<char>)
    requires
        tag_names(orig, curr).contains(name),
    ensures
        lowercase(shown_name(orig, curr, name)) == name,
{
    let both = orig + curr;
    let lows = picked(both, real_tags(), lower_name());
    crate::lists::law_distinct(lows);
    crate::lists::law_chosen(both, real_tags());
    let all = chosen(both, real_tags());
    let k = choose|k: int| 0 <= k < lows.len() && lows[k] == name;
    assert(real_tags()(all[k]));
    assert(both.contains(all[k]));
    let at = choose|at: int| 0 <= at < both.len() && both[at] == all[k];
    assert(bears(both[at], name));
    crate::lists::law_first_place(curr, 0, bearing(name));
    crate::lists::law_first_place(orig, 0, bearing(name));
    if at < orig.len() {
        assert(bearing(name)(orig[at]));
    } else {
        assert(bearing(name)(curr[at - orig.len()]));
    }
}

/// What the changes to one tag take away and give.
proof fn lemma_name_changes(
    track_idx: usize,
    orig: Seq<TagFieldModel>,
    curr: Seq<TagFieldModel>,
    of: Seq<char>,
    name: Seq<char>,
    value: Seq<char>,
)
    requires
        value.len() > 0,
        lowercase(shown_name(orig, curr, of)) == of,
    ensures
        drops(name_changes(track_idx, of, orig, curr), name, value) <==> of == name && has_value(
            orig,
            name,
            value,
        ) && (marks(curr, name, value) || !has_value(curr, name, value)),
        adds(name_changes(track_idx, of, orig, curr), name, value) <==> of == name && keeps(
            curr,
            name,
            value,
        ) && !has_value(orig, name, value),
{
    let shown = shown_name(orig, curr, of);
    let all = name_changes(track_idx, of, orig, curr);
    let a = picked(curr, marked(of), deletion(track_idx, shown, orig, of));
    let b = picked(curr, fresh(of, orig), addition(track_idx, shown));
    let c = picked(orig, gone(of, curr), removal(track_idx, shown));
    let from_a = chosen(curr, marked(of));
    let from_b = chosen(curr, fresh(of, orig));
    let from_c = chosen(orig, gone(of, curr));
    crate::lists::law_chosen(curr, marked(of));
    crate::lists::law_chosen(curr, fresh(of, orig));
    crate::lists::law_chosen(orig, gone(of, curr));
    assert(all == a + b + c);
    if drops(all, name, value) {
        let k = choose|k: int|
            0 <= k < all.len() && lowercase((#[trigger] all[k]).field_name) == name
                && all[k].old_value == value && all[k].new_value.len() == 0;
        if k < a.len() {
            assert(all[k] == a[k]);
            let f = from_a[k];
            assert(marked(of)(f));
            let i = choose|i: int| 0 <= i < curr.len() && curr[i] == f;
            assert(bears(curr[i], name));
        } else if k < a.len() + b.len() {
            assert(all[k] == b[k - a.len()]);
        } else {
            assert(all[k] == c[k - a.len() - b.len()]);
            let f = from_c[k - a.len() - b.len()];
            assert(gone(of, curr)(f));
            let i = choose|i: int| 0 <= i < orig.len() && orig[i] == f;
            assert(bears(orig[i], name));
        }
    }
    if of == name && has_value(orig, name, value) && marks(curr, name, value) {
        let i = choose|i: int|
            0 <= i < curr.len() && bears(#[trigger] curr[i], name) && curr[i].value == value
                && curr[i].deleted;
        assert(marked(of)(curr[i]));
        assert(from_a.contains(curr[i]));
        let k = choose|k: int| 0 <= k < from_a.len() && from_a[k] == curr[i];
        assert(all[k] == a[k]);
        assert(all[k].old_value == value);
    }
    if of == name && has_value(orig, name, value) && !has_value(curr, name, value) {
        let i = choose|i: int|
            0 <= i < orig.len() && bears(#[trigger] orig[i], name) && orig[i].value == value;
        assert(gone(of, curr)(orig[i]));
        assert(from_c.contains(orig[i]));
        let k = choose|k: int| 0 <= k < from_c.len() && from_c[k] == orig[i];
        assert(all[a.len() + b.len() + k] == c[k]);
        assert(c[k].old_value == value);
    }
    if adds(all, name, value) {
        let k = choose|k: int|
            0 <= k < all.len() && lowercase((#[trigger] all[k]).field_name) == name
                && all[k].old_value.len() == 0 && all[k].new_value == value;
        if k < a.len() {
            assert(all[k] == a[k]);
        } else if k < a.len() + b.len() {
            assert(all[k] == b[k - a.len()]);
            let f = from_b[k - a.len()];
            assert(fresh(of, orig)(f));
            let i = choose|i: int| 0 <= i < curr.len() && curr[i] == f;
            assert(bears(curr[i], name));
        } else {
            assert(all[k] == c[k - a.len() - b.len()]);
        }
    }
    if of == name && keeps(curr, name, value) && !has_value(orig, name, value) {
        let i = choose|i: int|
            0 <= i < curr.len() && bears(#[trigger] curr[i], name) && curr[i].value == value
                && !curr[i].deleted;
        assert(fresh(of, orig)(curr[i]));
        assert(from_b.contains(curr[i]));
        let k = choose|k: int| 0 <= k < from_b.len() && from_b[k] == curr[i];
        assert(all[a.len() + k] == b[k]);
        assert(b[k].new_value == value);
    }
}

/// What changes take away and give, one list after another.
proof fn lemma_changes_joined(
    a: Seq<TagChangeModel>,
    b: Seq<TagChangeModel>,
    name: Seq<char>,
    value: Seq<char>,
)
    ensures
        drops(a + b, name, value) <==> drops(a, name, value) || drops(b, name, value),
        adds(a + b, name, value) <==> adds(a, name, value) || adds(b, name, value),
{
    let all = a + b;
    assert forall|k: int| 0 <= k < a.len() implies #[trigger] a[k] == all[k] by {}
    assert forall|k: int| 0 <= k < b.len() implies #[trigger] b[k] == all[a.len() + k] by {}
    assert forall|k: int| 0 <= k < all.len() implies #[trigger] all[k] == (if k < a.len() {
        a[k]
    } else {
        b[k - a.len()]
    }) by {}
}

/// What the changes to some tags take away and give.
proof fn lemma_names_changes(
    track_idx: usize,
    names: Seq<Seq<char>>,
    orig: Seq<TagFieldModel>,
    curr: Seq<TagFieldModel>,
    name: Seq<char>,
    value: Seq<char>,
)
    requires
        value.len() > 0,
        forall|i: int|
            0 <= i < names.len() ==> lowercase(shown_name(orig, curr, #[trigger] names[i]))
                == names[i],
    ensures
        drops(names_changes(track_idx, names, orig, curr), name, value) <==> names.contains(name)
            && has_value(orig, name, value) && (marks(curr, name, value) || !has_value(
            curr,
            name,
            value,
        )),
        adds(names_changes(track_idx, names, orig, curr), name, value) <==> names.contains(name)
            && keeps(curr, name, value) && !has_value(orig, name, value),
    decreases names.len(),
{
    if names.len() > 0 {
        let init = names.drop_last();
        let of = names.last();
        assert forall|i: int| 0 <= i < init.len() implies lowercase(
            shown_name(orig, curr, #[trigger] init[i]),
        ) == init[i] by {
            assert(init[i] == names[i]);
        }
        assert(names[names.len() - 1] == of);
        lemma_names_changes(track_idx, init, orig, curr, name, value);
        lemma_name_changes(track_idx, orig, curr, of, name, value);
        lemma_changes_joined(
            names_changes(track_idx, init, orig, curr),
            name_changes(track_idx, of, orig, curr),
            name,
            value,
        );
        assert(names.contains(name) <==> init.contains(name) || of == name) by {
            if names.contains(name) {
                let i = choose|i: int| 0 <= i < names.len() && names[i] == name;
                if i < init.len() {
                    assert(init[i] == name);
                }
            }
            if init.contains(name) {
                let i = choose|i: int| 0 <= i < init.len() && init[i] == name;
                assert(names[i] == name);
            }
        }
    }
}

/// Carrying the changes out brings about what the editor shows: a tag keeps
/// exactly the values that it had and that were not taken away, and those that
/// were given to it. No value may stand twice, once to be kept and once to be
/// deleted.
pub proof fn law_changes_bring_about_the_edit(
    track_idx: usize,
    orig: Seq<TagFieldModel>,
    curr: Seq<TagFieldModel>,
    name: Seq<char>,
    value: Seq<char>,
)
    requires
        value.len() > 0,
        !(keeps(curr, name, value) && marks(curr, name, value)),
    ensures
        keeps(curr, name, value) <==> (has_value(orig, name, value) && !drops(
            file_changes(track_idx, orig, curr),
            name,
            value,
        )) || adds(file_changes(track_idx, orig, curr), name, value),
{
    let names = tag_names(orig, curr);
    assert forall|i: int| 0 <= i < names.len() implies lowercase(
        shown_name(orig, curr, #[trigger] names[i]),
    ) == names[i] by {
        assert(names.contains(names[i]));
        lemma_shown_name(orig, curr, names[i]);
    }
    lemma_names_changes(track_idx, names, orig, curr, name, value);
    if has_value(orig, name, value) {
        let i = choose|i: int|
            0 <= i < orig.len() && bears(#[trigger] orig[i], name) && orig[i].value == value;
        lemma_name_listed(orig, curr, name, i);
    }
    if keeps(curr, name, value) {
        let i = choose|i: int|
            0 <= i < curr.len() && bears(#[trigger] curr[i], name) && curr[i].value == value
                && !curr[i].deleted;
        assert(has_value(curr, name, value));
        lemma_name_listed(orig, curr, name, orig.len() + i);
    } else if has_value(curr, name, value) {
        let i = choose|i: int|
            0 <= i < curr.len() && bears(#[trigger] curr[i], name) && curr[i].value == value;
        assert(curr[i].deleted);
        assert(marks(curr, name, value));
    }
}

// ---------------------------------------------------------------------------
// Mutations
// ---------------------------------------------------------------------------

/// What a change asks for: an empty value before is an adding, an empty value
/// after is a dropping, and with neither the value is replaced. Two empty values
/// ask for nothing, and so does a change of a file that is not there.
pub open spec fn op_of(c: TagChangeModel, files: Seq<AudioFileModel>) -> Option<TagOpModel> {
    if c.track_idx >= files.len() {
        None
    } else {
        let inode = files[c.track_idx as int].inode;
        if c.old_value.len() == 0 && c.new_value.len() == 0 {
            None
        } else if c.old_value.len() == 0 {
            Some(adding(inode, c.field_name, c.new_value))
        } else if c.new_value.len() == 0 {
            Some(dropping(inode, c.field_name, c.old_value))
        } else {
            Some(replacing(inode, c.field_name, c.old_value, c.new_value))
        }
    }
}

/// What some changes ask for, in their order.
pub open spec fn ops_of(changes: Seq<TagChangeModel>, files: Seq<AudioFileModel>) -> Seq<TagOpModel>
    decreases changes.len(),
{
    if changes.len() == 0 {
        Seq::empty()
    } else {
        let r = ops_of(changes.drop_last(), files);
        match op_of(changes.last(), files) {
            Some(op) => r.push(op),
            None => r,
        }
    }
}

/// All tag changes as one mutation, or none where there is nothing to do.
pub open spec fn as_one(ops: Seq<TagOpModel>) -> Seq<MutationModel> {
    if ops.len() == 0 {
        Seq::empty()
    } else {
        seq![MutationModel::ApplyTagOps { ops }]
    }
}

/// All tag changes as one mutation.
pub fn one_mutation(ops: Vec<TagOp>) -> (r: Vec<Mutation>)
    ensures
        r.deep_view() == as_one(ops.deep_view()),
{
    let mut out: Vec<Mutation> = nothing();
    if ops.len() != 0 {
        put(&mut out, Mutation::ApplyTagOps { ops });
    }
    out
}

/// Turns changes into one mutation that holds a tag operation for each. Every
/// operation carries the value it expects to find, so that a file that changed
/// since is not overwritten.
pub fn changes_to_mutations(changes: &Vec<TagChange>, audio_files: &Vec<AudioFile>) -> (r: Vec<
    Mutation,
>)
    ensures
        r.deep_view() == as_one(ops_of(changes.deep_view(), audio_files.deep_view())),
{
    let mut ops: Vec<TagOp> = nothing();
    let ghost all = changes.deep_view();
    proof {
        assert(all.take(0) =~= Seq::<TagChangeModel>::empty());
    }
    let mut i: usize = 0;
    while i < changes.len()
        invariant
            i <= changes.len(),
            all == changes.deep_view(),
            ops.deep_view() == ops_of(all.take(i as int), audio_files.deep_view()),
        decreases changes.len() - i,
    {
        let c: &TagChange = &changes[i];
        proof {
            assert(all.take(i as int + 1).drop_last() =~= all.take(i as int));
            assert(all.take(i as int + 1).last() == c.deep_view());
        }
        if c.track_idx < audio_files.len() {
            let inode: i64 = audio_files[c.track_idx].inode();
            let no_old: bool = c.old_value.as_str().is_empty();
            let no_new: bool = c.new_value.as_str().is_empty();
            if no_old && no_new {
            } else if no_old {
                put(&mut ops, TagOp::add_tag(inode, c.field_name.as_str(), c.new_value.as_str()));
            } else if no_new {
                put(&mut ops, TagOp::drop_tag(inode, c.field_name.as_str(), c.old_value.as_str()));
            } else {
                put(
                    &mut ops,
                    TagOp::replace_tag(
                        inode,
                        c.field_name.as_str(),
                        c.old_value.as_str(),
                        c.new_value.as_str(),
                    ),
                );
            }
        }
        i = i + 1;
    }
    proof {
        assert(all.take(all.len() as int) =~= all);
    }
    one_mutation(ops)
}

/// Every operation asked for is on a file that is being edited, and names a
/// value to drop, a value to add, or both.
pub proof fn law_ops_are_on_edited_files(
    changes: Seq<TagChangeModel>,
    files: Seq<AudioFileModel>,
)
    ensures
        forall|i: int|
            0 <= i < ops_of(changes, files).len() ==> {
                let op = #[trigger] ops_of(changes, files)[i];
                &&& exists|k: int| 0 <= k < files.len() && (#[trigger] files[k]).inode == op.inode
                &&& op.old_value is Some || op.new_value is Some
            },
    decreases changes.len(),
{
    if changes.len() > 0 {
        law_ops_are_on_edited_files(changes.drop_last(), files);
        let c = changes.last();
        if c.track_idx < files.len() {
            assert(files[c.track_idx as int].inode == files[c.track_idx as int].inode);
        }
        let before = ops_of(changes.drop_last(), files);
        let after = ops_of(changes, files);
        assert forall|i: int| 0 <= i < after.len() implies {
            let op = #[trigger] after[i];
            &&& exists|k: int| 0 <= k < files.len() && (#[trigger] files[k]).inode == op.inode
            &&& op.old_value is Some || op.new_value is Some
        } by {
            if i < before.len() {
                assert(after[i] == before[i]);
            }
        }
    }
}

/// A value as an operation names it: one that is empty is not there.
pub open spec fn if_any(value: Seq<char>) -> Option<Seq<char>> {
    if value.len() == 0 {
        None
    } else {
        Some(value)
    }
}

/// Whether an operation carries a change out: it is on the very file that was
/// edited, on the tag that was edited, and takes and gives the values of the edit.
pub open spec fn carries_out(
    op: TagOpModel,
    c: TagChangeModel,
    files: Seq<AudioFileModel>,
) -> bool {
    &&& c.track_idx < files.len()
    &&& c.old_value.len() > 0 || c.new_value.len() > 0
    &&& op.inode == files[c.track_idx as int].inode
    &&& op.tag_name == c.field_name
    &&& op.old_value == if_any(c.old_value)
    &&& op.new_value == if_any(c.new_value)
}

/// The operations that mutations hold, when there is at most one mutation and it
/// changes tags.
pub open spec fn ops_held(mutations: Seq<MutationModel>) -> Option<Seq<TagOpModel>> {
    if mutations.len() == 0 {
        Some(Seq::empty())
    } else if mutations.len() == 1 && mutations[0] is ApplyTagOps {
        Some(mutations[0]->ops)
    } else {
        None
    }
}

/// Every change of a file that is there, with a value before or after, is carried
/// out on that file; and nothing is done but what a change asks for. There are no
/// more operations than changes.
pub proof fn law_changes_are_carried_out(
    changes: Seq<TagChangeModel>,
    files: Seq<AudioFileModel>,
)
    ensures
        ops_held(as_one(ops_of(changes, files))) is Some,
        forall|i: int|
            0 <= i < changes.len() && (#[trigger] changes[i]).track_idx < files.len() && (
            changes[i].old_value.len() > 0 || changes[i].new_value.len() > 0) ==> exists|k: int|
                0 <= k < ops_held(as_one(ops_of(changes, files)))->0.len() && carries_out(
                    #[trigger] ops_held(as_one(ops_of(changes, files)))->0[k],
                    changes[i],
                    files,
                ),
        forall|k: int|
            0 <= k < ops_held(as_one(ops_of(changes, files)))->0.len() ==> exists|i: int|
                0 <= i < changes.len() && carries_out(
                    #[trigger] ops_held(as_one(ops_of(changes, files)))->0[k],
                    #[trigger] changes[i],
                    files,
                ),
        ops_held(as_one(ops_of(changes, files)))->0.len() <= changes.len(),
{
    lemma_changes_are_carried_out(changes, files);
    assert(ops_held(as_one(ops_of(changes, files)))->0 =~= ops_of(changes, files));
}

proof fn lemma_changes_are_carried_out(changes: Seq<TagChangeModel>, files: Seq<AudioFileModel>)
    ensures
        forall|i: int|
            0 <= i < changes.len() && (#[trigger] changes[i]).track_idx < files.len() && (
            changes[i].old_value.len() > 0 || changes[i].new_value.len() > 0) ==> exists|k: int|
                0 <= k < ops_of(changes, files).len() && carries_out(
                    #[trigger] ops_of(changes, files)[k],
                    changes[i],
                    files,
                ),
        forall|k: int|
            0 <= k < ops_of(changes, files).len() ==> exists|i: int|
                0 <= i < changes.len() && carries_out(
                    #[trigger] ops_of(changes, files)[k],
                    #[trigger] changes[i],
                    files,
                ),
        ops_of(changes, files).len() <= changes.len(),
    decreases changes.len(),
{
    if changes.len() > 0 {
        let init = changes.drop_last();
        lemma_changes_are_carried_out(init, files);
        let before = ops_of(init, files);
        let after = ops_of(changes, files);
        assert forall|i: int|
            0 <= i < changes.len() && (#[trigger] changes[i]).track_idx < files.len() && (
            changes[i].old_value.len() > 0 || changes[i].new_value.len() > 0) implies exists|k: int|
            0 <= k < after.len() && carries_out(#[trigger] after[k], changes[i], files) by {
            if i < init.len() {
                assert(init[i] == changes[i]);
                let k = choose|k: int|
                    0 <= k < before.len() && carries_out(#[trigger] before[k], init[i], files);
                assert(carries_out(after[k], changes[i], files));
            } else {
                assert(carries_out(after[after.len() - 1], changes[i], files));
            }
        }
        assert forall|k: int| 0 <= k < after.len() implies exists|i: int|
            0 <= i < changes.len() && carries_out(
                #[trigger] after[k],
                #[trigger] changes[i],
                files,
            ) by {
            if k < before.len() {
                let i = choose|i: int|
                    0 <= i < init.len() && carries_out(before[k], #[trigger] init[i], files);
                assert(carries_out(after[k], changes[i], files));
            } else {
                assert(carries_out(after[k], changes[changes.len() - 1], files));
            }
        }
    }
}

/// Operations stand in the order of their changes, one for each: changes made
/// after others add their operations behind those of the others.
pub proof fn law_later_changes_add_ops(
    first: Seq<TagChangeModel>,
    then_changed: Seq<TagChangeModel>,
    files: Seq<AudioFileModel>,
)
    ensures
        ops_of(first + then_changed, files) == ops_of(first, files) + ops_of(then_changed, files),
    decreases then_changed.len(),
{
    let both = first + then_changed;
    if then_changed.len() == 0 {
        assert(both =~= first);
        assert(ops_of(first, files) + ops_of(then_changed, files) =~= ops_of(first, files));
    } else {
        law_later_changes_add_ops(first, then_changed.drop_last(), files);
        assert(both.drop_last() =~= first + then_changed.drop_last());
        assert(both.last() == then_changed.last());
        assert(ops_of(both, files) =~= ops_of(first, files) + ops_of(then_changed, files));
    }
}

/// A change that names a file and a value asks for exactly one operation, however
/// many changes there are: two equal changes are carried out twice.
pub proof fn law_a_change_is_one_op(c: TagChangeModel, files: Seq<AudioFileModel>)
    ensures
        ops_of(seq![c], files).len() == (if c.track_idx < files.len() && (c.old_value.len() > 0
            || c.new_value.len() > 0) {
            1int
        } else {
            0
        }),
{
    assert(seq![c].drop_last() =~= Seq::<TagChangeModel>::empty());
    reveal_with_fuel(ops_of, 2);
}

// ---------------------------------------------------------------------------
// Many files as one
// ---------------------------------------------------------------------------

/// The condition of being a tag with a value.
pub open spec fn filled() -> spec_fn(TagFieldModel) -> bool {
    |f: TagFieldModel| !creates(f) && f.value.len() != 0
}

/// The value of a field.
pub open spec fn value_text() -> spec_fn(TagFieldModel) -> Seq<char> {
    |f: TagFieldModel| f.value
}

/// One tag across the filled fields of all files: the one value that it has,
/// or several.
pub open spec fn aggregate(fields: Seq<TagFieldModel>, name: Seq<char>) -> AggregatedTagFieldModel {
    let values = distinct(picked(fields, bearing(name), value_text()));
    let value = if values.len() == 1 {
        AggregatedValueModel::Consistent(values[0])
    } else {
        AggregatedValueModel::Various
    };
    AggregatedTagFieldModel {
        name: fields[first_place(fields, 0, bearing(name)) as int].name,
        value,
        original_value: value,
    }
}

/// The aggregate of a tag across some fields.
pub open spec fn aggregate_in(fields: Seq<TagFieldModel>) -> spec_fn(
    Seq<char>,
) -> AggregatedTagFieldModel {
    |name: Seq<char>| aggregate(fields, name)
}

/// Aggregates stand in the alphabetical order of their names.
impl Ranked for AggregatedTagField {
    open spec fn precedes(a: AggregatedTagFieldModel, b: AggregatedTagFieldModel) -> bool {
        text_before(lowercase(a.name), lowercase(b.name))
    }

    fn before(&self, other: &Self) -> (r: bool) {
        text::comes_before(
            text::to_lowercase(self.name.as_str()).as_str(),
            text::to_lowercase(other.name.as_str()).as_str(),
        )
    }
}

/// Whether one aggregate comes before another alphabetically.
pub open spec fn by_shown_name() -> spec_fn(AggregatedTagFieldModel, AggregatedTagFieldModel) -> bool {
    |a: AggregatedTagFieldModel, b: AggregatedTagFieldModel| AggregatedTagField::precedes(a, b)
}

/// The line of the aggregated view that creates a tag.
pub open spec fn new_tag_aggregate() -> AggregatedTagFieldModel {
    AggregatedTagFieldModel {
        name: "New Tag"@,
        value: AggregatedValueModel::Consistent(Seq::empty()),
        original_value: AggregatedValueModel::Consistent(Seq::empty()),
    }
}

/// All files as one: every tag with a value in some file, in alphabetical
/// order, then the line that creates a tag. No files make no lines.
pub open spec fn aggregated(files: Seq<Seq<TagFieldModel>>) -> Seq<AggregatedTagFieldModel> {
    if files.len() == 0 {
        Seq::empty()
    } else {
        let fields = chosen(flat(files), filled());
        in_order(
            distinct(fields.map_values(lower_name())).map_values(aggregate_in(fields)),
            by_shown_name(),
        ).push(new_tag_aggregate())
    }
}

/// The filled fields of all files, one file after the other.
fn filled_fields(files: &Vec<Vec<TagField>>) -> (r: Vec<TagField>)
    ensures
        r.deep_view() == chosen(flat(files.deep_view()), filled()),
{
    let mut out: Vec<TagField> = nothing();
    let ghost all = files.deep_view();
    let ghost mut sofar: Seq<TagFieldModel> = Seq::empty();
    proof {
        assert(all.take(0) =~= Seq::<Seq<TagFieldModel>>::empty());
    }
    let mut i: usize = 0;
    while i < files.len()
        invariant
            i <= files.len(),
            all == files.deep_view(),
            sofar == flat(all.take(i as int)),
            out.deep_view() == chosen(sofar, filled()),
        decreases files.len() - i,
    {
        let ghost base = sofar;
        let ghost here = files[i as int].deep_view();
        let mut k: usize = 0;
        proof {
            assert(base + here.take(0) =~= base);
        }
        while k < files[i].len()
            invariant
                i < files.len(),
                k <= files[i as int].len(),
                here == files[i as int].deep_view(),
                sofar == base + here.take(k as int),
                out.deep_view() == chosen(sofar, filled()),
            decreases files[i as int].len() - k,
        {
            let f: &TagField = &files[i][k];
            proof {
                assert(f.deep_view() == here[k as int]);
                let next = sofar.push(here[k as int]);
                assert(next.drop_last() =~= sofar);
                assert(next =~= base + here.take(k as int + 1));
                sofar = next;
            }
            if !text::same(f.name.as_str(), "New Tag") && !f.value.as_str().is_empty() {
                put(&mut out, f.clone());
            }
            k = k + 1;
        }
        proof {
            assert(here.take(here.len() as int) =~= here);
            assert(all.take(i as int + 1).drop_last() =~= all.take(i as int));
            assert(all.take(i as int + 1).last() == here);
        }
        i = i + 1;
    }
    proof {
        assert(all.take(all.len() as int) =~= all);
    }
    out
}

/// One tag across the filled fields of all files.
fn aggregate_of(fields: &Vec<TagField>, name: &str) -> (r: AggregatedTagField)
    requires
        first_place(fields.deep_view(), 0, bearing(name@)) < fields.len(),
    ensures
        r.deep_view() == aggregate(fields.deep_view(), name@),
{
    let ghost all = fields.deep_view();
    let ghost mut seen: Seq<Seq<char>> = Seq::empty();
    let mut values: Vec<String> = nothing();
    proof {
        lemma_picked_start(all, bearing(name@), value_text());
    }
    let mut i: usize = 0;
    while i < fields.len()
        invariant
            i <= fields.len(),
            all == fields.deep_view(),
            seen == picked(all.take(i as int), bearing(name@), value_text()),
            values.deep_view() == distinct(seen),
        decreases fields.len() - i,
    {
        proof {
            lemma_picked_step(all, i as int, bearing(name@), value_text());
        }
        if is_of(&fields[i], name) {
            put_new(&mut values, fields[i].value.clone());
            proof {
                let next = seen.push(all[i as int].value);
                assert(next.drop_last() =~= seen);
                seen = next;
            }
        }
        i = i + 1;
    }
    proof {
        assert(all.take(all.len() as int) =~= all);
    }
    let first: usize = first_of(fields, name);
    let value: AggregatedValue = if values.len() == 1 {
        AggregatedValue::Consistent(values[0].clone())
    } else {
        AggregatedValue::Various
    };
    AggregatedTagField {
        name: fields[first].name.clone(),
        value: value.clone(),
        original_value: value,
    }
}

/// The name of a field is borne by some field.
proof fn lemma_borne(fields: Seq<TagFieldModel>, name: Seq<char>)
    requires
        distinct(fields.map_values(lower_name())).contains(name),
        forall|i: int| 0 <= i < fields.len() ==> filled()(#[trigger] fields[i]),
    ensures
        first_place(fields, 0, bearing(name)) < fields.len(),
{
    let lows = fields.map_values(lower_name());
    crate::lists::law_distinct(lows);
    assert(lows.contains(name));
    let k = choose|k: int| 0 <= k < lows.len() && lows[k] == name;
    assert(bearing(name)(fields[k])) by {
        assert(filled()(fields[k]));
    }
    crate::lists::law_first_place(fields, 0, bearing(name));
}

/// Looks at all files as one, for a view in which a change applies to every
/// file.
pub fn aggregate_tags_across_audio_files(files: &Vec<Vec<TagField>>) -> (r: Vec<AggregatedTagField>)
    ensures
        r.deep_view() == aggregated(files.deep_view()),
{
    if files.len() == 0 {
        return nothing();
    }
    let fields: Vec<TagField> = filled_fields(files);
    let ghost all = fields.deep_view();
    let ghost lows = all.map_values(lower_name());
    proof {
        crate::lists::law_chosen(flat(files.deep_view()), filled());
        assert(lows.take(0) =~= Seq::<Seq<char>>::empty());
    }
    let mut names: Vec<String> = nothing();
    let mut i: usize = 0;
    while i < fields.len()
        invariant
            i <= fields.len(),
            all == fields.deep_view(),
            lows == all.map_values(lower_name()),
            names.deep_view() == distinct(lows.take(i as int)),
        decreases fields.len() - i,
    {
        put_new(&mut names, text::to_lowercase(fields[i].name.as_str()));
        proof {
            lemma_distinct_step(lows, i as int);
            assert(lows[i as int] == lowercase(fields[i as int].name@));
        }
        i = i + 1;
    }
    proof {
        assert(lows.take(lows.len() as int) =~= lows);
    }
    let mut entries: Vec<AggregatedTagField> = nothing();
    let ghost ns = names.deep_view();
    let mut k: usize = 0;
    while k < names.len()
        invariant
            k <= names.len(),
            all == fields.deep_view(),
            ns == names.deep_view(),
            ns == distinct(all.map_values(lower_name())),
            forall|i: int| 0 <= i < all.len() ==> filled()(#[trigger] all[i]),
            entries.len() == k,
            forall|j: int|
                0 <= j < k ==> (#[trigger] entries[j]).deep_view() == aggregate(all, ns[j]),
        decreases names.len() - k,
    {
        proof {
            assert(ns[k as int] == names[k as int]@);
            assert(ns.contains(ns[k as int]));
            lemma_borne(all, ns[k as int]);
        }
        entries.push(aggregate_of(&fields, names[k].as_str()));
        k = k + 1;
    }
    proof {
        assert(entries.deep_view() =~= ns.map_values(aggregate_in(all)));
    }
    let mut out: Vec<AggregatedTagField> = sorted(entries);
    put(
        &mut out,
        AggregatedTagField {
            name: "New Tag".to_owned(),
            value: AggregatedValue::Consistent(String::new()),
            original_value: AggregatedValue::Consistent(String::new()),
        },
    );
    out
}

} // verus!
