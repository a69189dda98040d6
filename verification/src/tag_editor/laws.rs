//! What comparing and gathering tags promises: which changes are found, and what
//! many files have in common.

use vstd::prelude::*;

use crate::lists::{chosen, distinct, first_place, flat, law_chosen, law_distinct, law_first_place, law_picked, picked};
use crate::ordering::{in_order, law_in_order, law_in_order_contains};
use crate::tag_editor::model::{aggregate_changes, former_value, named, value_changes};
use crate::tag_editor::mutations::{addition, aggregate, aggregate_in, aggregated, all_changes, as_field, bearing, bears, by_name, by_shown_name, changes_to_first, deletion, fields_from_disk, file_changes, filled, fresh, gone, has_value, lower_name, marked, name_changes, names_changes, real_tags, removal, shown_name, sorted_fields, tag_names, value_text};
use crate::tag_editor::types::{AggregatedTagFieldModel, AggregatedValueModel, TagChangeModel, TagFieldModel};
use crate::text::{ascii_small, lowercase, text_before, uppercase};

verus! {

// ---------------------------------------------------------------------------
// Changes
// ---------------------------------------------------------------------------

/// Whether a line holds a tag of a name, given in small letters.
pub open spec fn is_tag(f: TagFieldModel, name: Seq<char>) -> bool {
    f.name != "New Tag"@ && lowercase(f.name) == name
}

/// Whether a line among some holds a tag of a name with a value.
pub open spec fn among(fields: Seq<TagFieldModel>, name: Seq<char>, value: Seq<char>) -> bool {
    exists|i: int|
        0 <= i < fields.len() && is_tag(#[trigger] fields[i], name) && fields[i].value == value
}

/// Whether a text is the name of the first line with a tag, as it is written.
pub open spec fn written(fields: Seq<TagFieldModel>, name: Seq<char>, text: Seq<char>) -> bool {
    exists|i: int|
        0 <= i < fields.len() && is_tag(#[trigger] fields[i], name) && fields[i].name == text
            && forall|j: int| 0 <= j < i ==> !is_tag(#[trigger] fields[j], name)
}

/// Whether a change is called as the tag is written: in the lines as they are, or
/// in those as they were where it is in none of the first.
pub open spec fn called(
    c: TagChangeModel,
    orig: Seq<TagFieldModel>,
    curr: Seq<TagFieldModel>,
    name: Seq<char>,
) -> bool {
    written(curr, name, c.field_name) || ((forall|i: int|
        0 <= i < curr.len() ==> !is_tag(#[trigger] curr[i], name)) && written(
        orig,
        name,
        c.field_name,
    ))
}

/// Whether a change takes out a line that is marked.
pub open spec fn takes_out(
    c: TagChangeModel,
    f: TagFieldModel,
    orig: Seq<TagFieldModel>,
    curr: Seq<TagFieldModel>,
) -> bool {
    let name = lowercase(f.name);
    &&& f.name != "New Tag"@
    &&& f.deleted
    &&& called(c, orig, curr, name)
    &&& c.new_value.len() == 0
    &&& among(orig, name, f.value) ==> c.old_value == f.value
    &&& !among(orig, name, f.value) ==> c.old_value.len() == 0
}

/// Whether a change puts in a line whose value was not there.
pub open spec fn puts_in(
    c: TagChangeModel,
    f: TagFieldModel,
    orig: Seq<TagFieldModel>,
    curr: Seq<TagFieldModel>,
) -> bool {
    let name = lowercase(f.name);
    &&& f.name != "New Tag"@
    &&& !f.deleted
    &&& !among(orig, name, f.value)
    &&& called(c, orig, curr, name)
    &&& c.old_value.len() == 0
    &&& c.new_value == f.value
}

/// Whether a change drops a value that is there no more.
pub open spec fn loses(
    c: TagChangeModel,
    f: TagFieldModel,
    orig: Seq<TagFieldModel>,
    curr: Seq<TagFieldModel>,
) -> bool {
    let name = lowercase(f.name);
    &&& f.name != "New Tag"@
    &&& !among(curr, name, f.value)
    &&& called(c, orig, curr, name)
    &&& c.old_value == f.value
    &&& c.new_value.len() == 0
}

proof fn lemma_among(fields: Seq<TagFieldModel>, name: Seq<char>, value: Seq<char>)
    ensures
        has_value(fields, name, value) == among(fields, name, value),
{
    if has_value(fields, name, value) {
        let i = choose|i: int|
            0 <= i < fields.len() && bears(#[trigger] fields[i], name) && fields[i].value == value;
        assert(is_tag(fields[i], name));
    }
    if among(fields, name, value) {
        let i = choose|i: int|
            0 <= i < fields.len() && is_tag(#[trigger] fields[i], name) && fields[i].value == value;
        assert(bears(fields[i], name));
    }
}

proof fn lemma_written(fields: Seq<TagFieldModel>, name: Seq<char>, text: Seq<char>)
    ensures
        written(fields, name, text) <==> first_place(fields, 0, bearing(name)) < fields.len()
            && fields[first_place(fields, 0, bearing(name)) as int].name == text,
        first_place(fields, 0, bearing(name)) >= fields.len() <==> forall|i: int|
            0 <= i < fields.len() ==> !is_tag(#[trigger] fields[i], name),
{
    let k = first_place(fields, 0, bearing(name));
    law_first_place(fields, 0, bearing(name));
    assert forall|i: int| 0 <= i < fields.len() implies bearing(name)(fields[i]) == is_tag(
        #[trigger] fields[i],
        name,
    ) by {}
    if k < fields.len() {
        assert(is_tag(fields[k as int], name));
        if written(fields, name, text) {
            let i = choose|i: int|
                0 <= i < fields.len() && is_tag(#[trigger] fields[i], name) && fields[i].name
                    == text && forall|j: int| 0 <= j < i ==> !is_tag(#[trigger] fields[j], name);
            if k < i {
                assert(!is_tag(fields[k as int], name));
            }
            if i < k {
                assert(!bearing(name)(fields[i]));
            }
            assert(i == k);
        }
        if fields[k as int].name == text {
            assert forall|j: int| 0 <= j < k implies !is_tag(#[trigger] fields[j], name) by {
                assert(!bearing(name)(fields[j]));
            }
        }
    } else {
        assert forall|i: int| 0 <= i < fields.len() implies !is_tag(#[trigger] fields[i], name) by {
            assert(!bearing(name)(fields[i]));
        }
    }
}

proof fn lemma_called(
    c: TagChangeModel,
    orig: Seq<TagFieldModel>,
    curr: Seq<TagFieldModel>,
    name: Seq<char>,
)
    requires
        (exists|i: int| 0 <= i < orig.len() && is_tag(#[trigger] orig[i], name)) || (exists|i: int|
            0 <= i < curr.len() && is_tag(#[trigger] curr[i], name)),
    ensures
        called(c, orig, curr, name) <==> c.field_name == shown_name(orig, curr, name),
{
    lemma_written(curr, name, c.field_name);
    lemma_written(orig, name, c.field_name);
}

/// A change is found in a file just where a marked line is taken out, a line with
/// a value that was not there is put in, or a value that was there is lost.
pub proof fn law_changes_are_found(
    track_idx: usize,
    orig: Seq<TagFieldModel>,
    curr: Seq<TagFieldModel>,
    c: TagChangeModel,
)
    ensures
        file_changes(track_idx, orig, curr).contains(c) <==> c.track_idx == track_idx && ((
        exists|i: int| 0 <= i < curr.len() && takes_out(c, #[trigger] curr[i], orig, curr)) || (
        exists|i: int| 0 <= i < curr.len() && puts_in(c, #[trigger] curr[i], orig, curr)) || (
        exists|i: int| 0 <= i < orig.len() && loses(c, #[trigger] orig[i], orig, curr))),
{
    let names = tag_names(orig, curr);
    lemma_names_changes_contain(track_idx, names, orig, curr, c);
    if file_changes(track_idx, orig, curr).contains(c) {
        let name = choose|name: Seq<char>| #[trigger]
            names.contains(name) && name_changes(track_idx, name, orig, curr).contains(c);
        lemma_name_changes_contain(track_idx, name, orig, curr, c);
    }
    if c.track_idx == track_idx {
        if exists|i: int| 0 <= i < curr.len() && takes_out(c, #[trigger] curr[i], orig, curr) {
            let i = choose|i: int|
                0 <= i < curr.len() && takes_out(c, #[trigger] curr[i], orig, curr);
            let name = lowercase(curr[i].name);
            lemma_named(orig, curr, orig.len() + i, name);
            lemma_name_changes_contain(track_idx, name, orig, curr, c);
            assert(name_changes(track_idx, name, orig, curr).contains(c));
        }
        if exists|i: int| 0 <= i < curr.len() && puts_in(c, #[trigger] curr[i], orig, curr) {
            let i = choose|i: int|
                0 <= i < curr.len() && puts_in(c, #[trigger] curr[i], orig, curr);
            let name = lowercase(curr[i].name);
            lemma_named(orig, curr, orig.len() + i, name);
            lemma_name_changes_contain(track_idx, name, orig, curr, c);
            assert(name_changes(track_idx, name, orig, curr).contains(c));
        }
        if exists|i: int| 0 <= i < orig.len() && loses(c, #[trigger] orig[i], orig, curr) {
            let i = choose|i: int| 0 <= i < orig.len() && loses(c, #[trigger] orig[i], orig, curr);
            let name = lowercase(orig[i].name);
            lemma_named(orig, curr, i, name);
            lemma_name_changes_contain(track_idx, name, orig, curr, c);
            assert(name_changes(track_idx, name, orig, curr).contains(c));
        }
    }
}

proof fn lemma_named(orig: Seq<TagFieldModel>, curr: Seq<TagFieldModel>, at: int, name: Seq<char>)
    requires
        0 <= at < orig.len() + curr.len(),
        is_tag((orig + curr)[at], name),
    ensures
        tag_names(orig, curr).contains(name),
{
    let both = orig + curr;
    law_picked(both, real_tags(), lower_name());
    law_distinct(picked(both, real_tags(), lower_name()));
    assert(real_tags()(both[at]) && lower_name()(both[at]) == name);
    assert(picked(both, real_tags(), lower_name()).contains(name));
}

proof fn lemma_names_changes_contain(
    track_idx: usize,
    names: Seq<Seq<char>>,
    orig: Seq<TagFieldModel>,
    curr: Seq<TagFieldModel>,
    c: TagChangeModel,
)
    ensures
        names_changes(track_idx, names, orig, curr).contains(c) <==> exists|name: Seq<char>|
            #[trigger] names.contains(name) && name_changes(track_idx, name, orig, curr).contains(
                c,
            ),
    decreases names.len(),
{
    if names.len() > 0 {
        let init = names.drop_last();
        lemma_names_changes_contain(track_idx, init, orig, curr, c);
        let a = names_changes(track_idx, init, orig, curr);
        let b = name_changes(track_idx, names.last(), orig, curr);
        lemma_contains_joined(a, b, c);
        assert(names.contains(names.last()));
        assert forall|name: Seq<char>| init.contains(name) implies #[trigger] names.contains(
            name,
        ) by {
            let k = choose|k: int| 0 <= k < init.len() && init[k] == name;
            assert(names[k] == name);
        }
        assert forall|name: Seq<char>| #[trigger] names.contains(name) implies init.contains(name)
            || name == names.last() by {
            let k = choose|k: int| 0 <= k < names.len() && names[k] == name;
            if k < init.len() {
                assert(init[k] == name);
            }
        }
        if names_changes(track_idx, names, orig, curr).contains(c) {
            if a.contains(c) {
                let name = choose|name: Seq<char>| #[trigger]
                    init.contains(name) && name_changes(track_idx, name, orig, curr).contains(c);
                assert(names.contains(name));
            }
        }
        if exists|name: Seq<char>| #[trigger]
            names.contains(name) && name_changes(track_idx, name, orig, curr).contains(c) {
            let name = choose|name: Seq<char>| #[trigger]
                names.contains(name) && name_changes(track_idx, name, orig, curr).contains(c);
            if name != names.last() {
                assert(init.contains(name));
            }
        }
    }
}

proof fn lemma_contains_joined(
    a: Seq<TagChangeModel>,
    b: Seq<TagChangeModel>,
    c: TagChangeModel,
)
    ensures
        (a + b).contains(c) <==> a.contains(c) || b.contains(c),
{
    if (a + b).contains(c) {
        let k = choose|k: int| 0 <= k < (a + b).len() && (a + b)[k] == c;
        if k < a.len() {
            assert(a[k] == c);
        } else {
            assert(b[k - a.len()] == c);
        }
    }
    if a.contains(c) {
        let k = choose|k: int| 0 <= k < a.len() && a[k] == c;
        assert((a + b)[k] == c);
    }
    if b.contains(c) {
        let k = choose|k: int| 0 <= k < b.len() && b[k] == c;
        assert((a + b)[a.len() + k] == c);
    }
}

proof fn lemma_name_changes_contain(
    track_idx: usize,
    name: Seq<char>,
    orig: Seq<TagFieldModel>,
    curr: Seq<TagFieldModel>,
    c: TagChangeModel,
)
    ensures
        name_changes(track_idx, name, orig, curr).contains(c) <==> c.track_idx == track_idx && ((
        exists|i: int|
            0 <= i < curr.len() && is_tag(curr[i], name) && takes_out(
                c,
                #[trigger] curr[i],
                orig,
                curr,
            )) || (exists|i: int|
            0 <= i < curr.len() && is_tag(curr[i], name) && puts_in(
                c,
                #[trigger] curr[i],
                orig,
                curr,
            )) || (exists|i: int|
            0 <= i < orig.len() && is_tag(orig[i], name) && loses(
                c,
                #[trigger] orig[i],
                orig,
                curr,
            ))),
{
    let shown = shown_name(orig, curr, name);
    let d = deletion(track_idx, shown, orig, name);
    let a = picked(curr, marked(name), d);
    let b = picked(curr, fresh(name, orig), addition(track_idx, shown));
    let g = picked(orig, gone(name, curr), removal(track_idx, shown));
    lemma_contains_joined(a + b, g, c);
    lemma_contains_joined(a, b, c);
    law_picked(curr, marked(name), d);
    law_picked(curr, fresh(name, orig), addition(track_idx, shown));
    law_picked(orig, gone(name, curr), removal(track_idx, shown));
    assert forall|i: int| 0 <= i < curr.len() && is_tag(#[trigger] curr[i], name) implies ((
    marked(name)(curr[i]) && d(curr[i]) == c) == (c.track_idx == track_idx && takes_out(
        c,
        curr[i],
        orig,
        curr,
    ))) && ((fresh(name, orig)(curr[i]) && addition(track_idx, shown)(curr[i]) == c) == (
    c.track_idx == track_idx && puts_in(c, curr[i], orig, curr))) by {
        lemma_among(orig, name, curr[i].value);
        lemma_called(c, orig, curr, name);
        if c.old_value.len() == 0 {
            assert(c.old_value =~= Seq::<char>::empty());
        }
        if c.new_value.len() == 0 {
            assert(c.new_value =~= Seq::<char>::empty());
        }
    }
    assert forall|i: int| 0 <= i < orig.len() && is_tag(#[trigger] orig[i], name) implies ((
    gone(name, curr)(orig[i]) && removal(track_idx, shown)(orig[i]) == c) == (c.track_idx
        == track_idx && loses(c, orig[i], orig, curr))) by {
        lemma_among(curr, name, orig[i].value);
        lemma_called(c, orig, curr, name);
        if c.new_value.len() == 0 {
            assert(c.new_value =~= Seq::<char>::empty());
        }
    }
    if a.contains(c) {
        let i = choose|i: int|
            0 <= i < curr.len() && marked(name)(#[trigger] curr[i]) && d(curr[i]) == c;
        assert(is_tag(curr[i], name));
    }
    if b.contains(c) {
        let i = choose|i: int|
            0 <= i < curr.len() && fresh(name, orig)(#[trigger] curr[i]) && addition(
                track_idx,
                shown,
            )(curr[i]) == c;
        assert(is_tag(curr[i], name));
    }
    if g.contains(c) {
        let i = choose|i: int|
            0 <= i < orig.len() && gone(name, curr)(#[trigger] orig[i]) && removal(
                track_idx,
                shown,
            )(orig[i]) == c;
        assert(is_tag(orig[i], name));
    }
    if c.track_idx == track_idx {
        if exists|i: int|
            0 <= i < curr.len() && is_tag(curr[i], name) && takes_out(
                c,
                #[trigger] curr[i],
                orig,
                curr,
            ) {
            let i = choose|i: int|
                0 <= i < curr.len() && is_tag(curr[i], name) && takes_out(
                    c,
                    #[trigger] curr[i],
                    orig,
                    curr,
                );
            assert(marked(name)(curr[i]) && d(curr[i]) == c);
            assert(a.contains(c));
        }
        if exists|i: int|
            0 <= i < curr.len() && is_tag(curr[i], name) && puts_in(
                c,
                #[trigger] curr[i],
                orig,
                curr,
            ) {
            let i = choose|i: int|
                0 <= i < curr.len() && is_tag(curr[i], name) && puts_in(
                    c,
                    #[trigger] curr[i],
                    orig,
                    curr,
                );
            assert(fresh(name, orig)(curr[i]) && addition(track_idx, shown)(curr[i]) == c);
            assert(b.contains(c));
        }
        if exists|i: int|
            0 <= i < orig.len() && is_tag(orig[i], name) && loses(c, #[trigger] orig[i], orig, curr) {
            let i = choose|i: int|
                0 <= i < orig.len() && is_tag(orig[i], name) && loses(
                    c,
                    #[trigger] orig[i],
                    orig,
                    curr,
                );
            assert(gone(name, curr)(orig[i]) && removal(track_idx, shown)(orig[i]) == c);
            assert(g.contains(c));
        }
    }
}

/// Each file is compared with itself as it was, at its own place.
pub proof fn law_files_are_compared_with_themselves(
    original: Seq<Seq<TagFieldModel>>,
    current: Seq<Seq<TagFieldModel>>,
    c: TagChangeModel,
)
    requires
        original.len() <= usize::MAX,
        current.len() <= usize::MAX,
    ensures
        all_changes(original, current).contains(c) <==> c.track_idx < original.len() && c.track_idx
            < current.len() && file_changes(
            c.track_idx,
            original[c.track_idx as int],
            current[c.track_idx as int],
        ).contains(c),
{
    let n = if original.len() < current.len() {
        original.len()
    } else {
        current.len()
    };
    lemma_first_files(n, original, current, c);
}

proof fn lemma_first_files(
    n: nat,
    original: Seq<Seq<TagFieldModel>>,
    current: Seq<Seq<TagFieldModel>>,
    c: TagChangeModel,
)
    requires
        n <= original.len() <= usize::MAX,
        n <= current.len() <= usize::MAX,
    ensures
        changes_to_first(n, original, current).contains(c) <==> c.track_idx < n && file_changes(
            c.track_idx,
            original[c.track_idx as int],
            current[c.track_idx as int],
        ).contains(c),
    decreases n,
{
    if n > 0 {
        let k = (n - 1) as nat;
        lemma_first_files(k, original, current, c);
        let of_last = file_changes(k as usize, original[k as int], current[k as int]);
        lemma_contains_joined(changes_to_first(k, original, current), of_last, c);
        law_changes_are_found(k as usize, original[k as int], current[k as int], c);
        if c.track_idx < k {
            law_changes_are_found(
                c.track_idx,
                original[c.track_idx as int],
                current[c.track_idx as int],
                c,
            );
        }
    }
}

// ---------------------------------------------------------------------------
// Lines
// ---------------------------------------------------------------------------

/// Tags become lines one for one, in the order of their names in large letters;
/// behind them stands the line that creates a tag.
pub proof fn law_tags_become_lines(tags: Seq<(Seq<char>, Seq<char>)>)
    ensures
        sorted_fields(tags).len() == tags.len(),
        forall|f: TagFieldModel| #[trigger]
            sorted_fields(tags).contains(f) <==> f.editable && !f.deleted && tags.contains(
                (f.name, f.value),
            ),
        forall|i: int, j: int|
            0 <= i < j < sorted_fields(tags).len() ==> !text_before(
                uppercase((#[trigger] sorted_fields(tags)[j]).name),
                uppercase((#[trigger] sorted_fields(tags)[i]).name),
            ),
        fields_from_disk(Some(tags)).drop_last() == sorted_fields(tags),
        fields_from_disk(Some(tags)).last().name == "New Tag"@,
        fields_from_disk(None).len() == 1,
        fields_from_disk(None)[0].name == "New Tag"@,
{
    let lines = tags.map_values(|t: (Seq<char>, Seq<char>)| as_field(t));
    let s = sorted_fields(tags);
    assert(s == in_order(lines, by_name()));
    lemma_by_name_ranks();
    law_in_order(lines, by_name());
    law_in_order_contains(lines, by_name());
    assert forall|f: TagFieldModel| #[trigger] s.contains(f) <==> f.editable && !f.deleted
        && tags.contains((f.name, f.value)) by {
        if s.contains(f) {
            assert(lines.contains(f));
            let k = choose|k: int| 0 <= k < lines.len() && lines[k] == f;
            assert(tags[k] == (f.name, f.value));
        }
        if f.editable && !f.deleted && tags.contains((f.name, f.value)) {
            let k = choose|k: int| 0 <= k < tags.len() && tags[k] == (f.name, f.value);
            assert(lines[k] == f);
            assert(lines.contains(f));
        }
    }
    assert forall|i: int, j: int| 0 <= i < j < s.len() implies !text_before(
        uppercase((#[trigger] s[j]).name),
        uppercase((#[trigger] s[i]).name),
    ) by {
        assert(!by_name()(s[j], s[i]));
    }
    assert(fields_from_disk(Some(tags)).drop_last() =~= s);
}

proof fn lemma_by_name_ranks()
    ensures
        crate::ordering::ranks(by_name()),
        crate::ordering::ranks(by_shown_name()),
{
    assert forall|a: Seq<char>, b: Seq<char>, c: Seq<char>|
        #![trigger text_before(a, b), text_before(b, c)]
        text_before(a, b) && text_before(b, c) implies text_before(a, c) by {
        crate::text::law_text_before_transitive(a, b, c);
    }
    assert forall|a: Seq<char>| !#[trigger] text_before(a, a) by {
        crate::text::law_text_before_irreflexive(a);
    }
    assert forall|a: Seq<char>, b: Seq<char>|
        #![trigger text_before(a, b)]
        !text_before(a, b) && !text_before(b, a) implies a == b by {
        crate::text::law_text_before_total(a, b);
    }
}

// ---------------------------------------------------------------------------
// Many files as one
// ---------------------------------------------------------------------------

/// Whether a tag of a name, given in small letters, has a value in one of the
/// files.
pub open spec fn filled_in(
    files: Seq<Seq<TagFieldModel>>,
    name: Seq<char>,
    value: Seq<char>,
) -> bool {
    value.len() > 0 && exists|i: int| 0 <= i < files.len() && among(#[trigger] files[i], name, value)
}

proof fn lemma_flat_contains(files: Seq<Seq<TagFieldModel>>, f: TagFieldModel)
    ensures
        flat(files).contains(f) <==> exists|i: int|
            0 <= i < files.len() && (#[trigger] files[i]).contains(f),
    decreases files.len(),
{
    if files.len() > 0 {
        let init = files.drop_last();
        lemma_flat_contains(init, f);
        let a = flat(init);
        let b = files.last();
        if flat(files).contains(f) {
            let k = choose|k: int| 0 <= k < flat(files).len() && flat(files)[k] == f;
            if k < a.len() {
                assert(a[k] == f);
                assert(a.contains(f));
                let i = choose|i: int| 0 <= i < init.len() && (#[trigger] init[i]).contains(f);
                assert(files[i].contains(f));
            } else {
                assert(b[k - a.len()] == f);
                assert(files[files.len() - 1].contains(f));
            }
        }
        if exists|i: int| 0 <= i < files.len() && (#[trigger] files[i]).contains(f) {
            let i = choose|i: int| 0 <= i < files.len() && (#[trigger] files[i]).contains(f);
            if i < init.len() {
                assert(init[i].contains(f));
                let k = choose|k: int| 0 <= k < a.len() && a[k] == f;
                assert(flat(files)[k] == f);
            } else {
                let k = choose|k: int| 0 <= k < b.len() && b[k] == f;
                assert(flat(files)[a.len() + k] == f);
            }
        }
    }
}

proof fn lemma_filled_in(files: Seq<Seq<TagFieldModel>>, name: Seq<char>, value: Seq<char>)
    ensures
        picked(chosen(flat(files), filled()), bearing(name), value_text()).contains(value)
            <==> filled_in(files, name, value),
{
    let all = flat(files);
    let fields = chosen(all, filled());
    law_chosen(all, filled());
    law_picked(fields, bearing(name), value_text());
    let values = picked(fields, bearing(name), value_text());
    if values.contains(value) {
        let k = choose|k: int|
            0 <= k < fields.len() && bearing(name)(#[trigger] fields[k]) && value_text()(fields[k])
                == value;
        assert(filled()(fields[k]) && all.contains(fields[k]));
        lemma_flat_contains(files, fields[k]);
        let i = choose|i: int| 0 <= i < files.len() && (#[trigger] files[i]).contains(fields[k]);
        let j = choose|j: int| 0 <= j < files[i].len() && files[i][j] == fields[k];
        assert(is_tag(files[i][j], name));
        assert(among(files[i], name, value));
    }
    if filled_in(files, name, value) {
        let i = choose|i: int| 0 <= i < files.len() && among(#[trigger] files[i], name, value);
        let j = choose|j: int|
            0 <= j < files[i].len() && is_tag(#[trigger] files[i][j], name) && files[i][j].value
                == value;
        let f = files[i][j];
        assert(files[i].contains(f));
        lemma_flat_contains(files, f);
        let k = choose|k: int| 0 <= k < all.len() && all[k] == f;
        assert(filled()(all[k]));
        assert(fields.contains(f));
        let l = choose|l: int| 0 <= l < fields.len() && fields[l] == f;
        assert(bearing(name)(fields[l]) && value_text()(fields[l]) == value);
    }
}

proof fn lemma_aggregate(files: Seq<Seq<TagFieldModel>>, name: Seq<char>)
    requires
        distinct(chosen(flat(files), filled()).map_values(lower_name())).contains(name),
    ensures
        ({
            let e = aggregate(chosen(flat(files), filled()), name);
            &&& lowercase(e.name) == name
            &&& e.original_value == e.value
            &&& e.value is Consistent || e.value is Various
            &&& exists|v: Seq<char>| filled_in(files, name, v)
            &&& forall|v: Seq<char>|
                e.value == AggregatedValueModel::Consistent(v) <==> #[trigger] filled_in(
                    files,
                    name,
                    v,
                ) && forall|w: Seq<char>| #[trigger] filled_in(files, name, w) ==> w == v
        }),
{
    let fields = chosen(flat(files), filled());
    let e = aggregate(fields, name);
    let lows = fields.map_values(lower_name());
    law_chosen(flat(files), filled());
    law_distinct(lows);
    assert(lows.contains(name));
    let k = choose|k: int| 0 <= k < lows.len() && lows[k] == name;
    assert(filled()(fields[k]));
    assert(bearing(name)(fields[k]));
    law_first_place(fields, 0, bearing(name));
    let at = first_place(fields, 0, bearing(name));
    assert(at < fields.len()) by {
        if at >= fields.len() {
            assert(!bearing(name)(fields[k]));
        }
    }
    assert(bearing(name)(fields[at as int]));
    let all = picked(fields, bearing(name), value_text());
    let values = distinct(all);
    law_picked(fields, bearing(name), value_text());
    law_distinct(all);
    assert(all.contains(fields[k].value)) by {
        assert(bearing(name)(fields[k]) && value_text()(fields[k]) == fields[k].value);
    }
    lemma_filled_in(files, name, fields[k].value);
    assert(filled_in(files, name, fields[k].value));
    assert(values.contains(fields[k].value));
    assert forall|v: Seq<char>|
        e.value == AggregatedValueModel::Consistent(v) <==> #[trigger] filled_in(files, name, v)
            && forall|w: Seq<char>| #[trigger] filled_in(files, name, w) ==> w == v by {
        lemma_filled_in(files, name, v);
        if e.value == AggregatedValueModel::Consistent(v) {
            assert(values.len() == 1 && values[0] == v);
            assert(values.contains(v));
            assert forall|w: Seq<char>| #[trigger] filled_in(files, name, w) implies w == v by {
                lemma_filled_in(files, name, w);
                assert(values.contains(w));
            }
        }
        if filled_in(files, name, v) && forall|w: Seq<char>| #[trigger]
            filled_in(files, name, w) ==> w == v {
            assert(values.contains(v));
            if values.len() > 1 {
                assert(values.contains(values[0]) && values.contains(values[1]));
                lemma_filled_in(files, name, values[0]);
                lemma_filled_in(files, name, values[1]);
                assert(values[0] == v && values[1] == v);
            }
            assert(values.len() == 1);
            assert(values[0] == v);
        }
    }
}

/// A line of many files shows the value that a tag has in all of them that have
/// one, and says where they differ.
pub proof fn law_common_value_is_shown(
    files: Seq<Seq<TagFieldModel>>,
    e: AggregatedTagFieldModel,
    v: Seq<char>,
)
    requires
        files.len() > 0,
        aggregated(files).drop_last().contains(e),
    ensures
        e.value == AggregatedValueModel::Consistent(v) <==> filled_in(files, lowercase(e.name), v)
            && forall|w: Seq<char>| #[trigger] filled_in(files, lowercase(e.name), w) ==> w == v,
        e.value is Consistent || e.value is Various,
        e.original_value == e.value,
{
    lemma_entry(files, e);
    lemma_aggregate(files, lowercase(e.name));
}

proof fn lemma_entry(files: Seq<Seq<TagFieldModel>>, e: AggregatedTagFieldModel)
    requires
        files.len() > 0,
        aggregated(files).drop_last().contains(e),
    ensures
        distinct(chosen(flat(files), filled()).map_values(lower_name())).contains(lowercase(e.name)),
        e == aggregate(chosen(flat(files), filled()), lowercase(e.name)),
{
    let fields = chosen(flat(files), filled());
    let names = distinct(fields.map_values(lower_name()));
    let all = names.map_values(aggregate_in(fields));
    let s = in_order(all, by_shown_name());
    assert(aggregated(files).drop_last() =~= s);
    law_in_order_contains(all, by_shown_name());
    assert(all.contains(e));
    let k = choose|k: int| 0 <= k < all.len() && all[k] == e;
    assert(names.contains(names[k]));
    lemma_aggregate(files, names[k]);
}

/// Every tag that has a value in some file stands on a line, and on no other; the
/// lines come in the order of their names, and the one that creates a tag last.
pub proof fn law_each_tag_has_a_line(files: Seq<Seq<TagFieldModel>>, name: Seq<char>)
    requires
        files.len() > 0,
    ensures
        (exists|i: int|
            0 <= i < aggregated(files).len() - 1 && lowercase(
                (#[trigger] aggregated(files)[i]).name,
            ) == name) <==> exists|v: Seq<char>| filled_in(files, name, v),
        forall|i: int, j: int|
            0 <= i < j < aggregated(files).len() - 1 ==> text_before(
                lowercase((#[trigger] aggregated(files)[i]).name),
                lowercase((#[trigger] aggregated(files)[j]).name),
            ),
        aggregated(files).last().name == "New Tag"@,
        aggregated(files).last().value == AggregatedValueModel::Consistent(Seq::empty()),
{
    let fields = chosen(flat(files), filled());
    let lows = fields.map_values(lower_name());
    let names = distinct(lows);
    let all = names.map_values(aggregate_in(fields));
    let s = in_order(all, by_shown_name());
    let r = aggregated(files);
    lemma_by_name_ranks();
    law_distinct(lows);
    law_in_order(all, by_shown_name());
    law_in_order_contains(all, by_shown_name());
    assert(r.drop_last() =~= s);
    assert forall|k: int| 0 <= k < all.len() implies lowercase((#[trigger] all[k]).name) == names[k] by {
        assert(names.contains(names[k]));
        lemma_aggregate(files, names[k]);
    }
    if exists|i: int| 0 <= i < r.len() - 1 && lowercase((#[trigger] r[i]).name) == name {
        let i = choose|i: int| 0 <= i < r.len() - 1 && lowercase((#[trigger] r[i]).name) == name;
        assert(r.drop_last()[i] == r[i]);
        lemma_entry(files, r[i]);
        lemma_aggregate(files, name);
    }
    if exists|v: Seq<char>| filled_in(files, name, v) {
        let v = choose|v: Seq<char>| filled_in(files, name, v);
        lemma_filled_in(files, name, v);
        law_picked(fields, bearing(name), value_text());
        let k = choose|k: int|
            0 <= k < fields.len() && bearing(name)(#[trigger] fields[k]) && value_text()(fields[k])
                == v;
        assert(lows[k] == name);
        assert(names.contains(name));
        let j = choose|j: int| 0 <= j < names.len() && names[j] == name;
        assert(all.contains(all[j]));
        assert(s.contains(all[j]));
        let i = choose|i: int| 0 <= i < s.len() && s[i] == all[j];
        assert(r[i] == all[j]);
    }
    lemma_lines_apart(files, s);
    assert forall|i: int, j: int| 0 <= i < j < r.len() - 1 implies text_before(
        lowercase((#[trigger] r[i]).name),
        lowercase((#[trigger] r[j]).name),
    ) by {
        assert(r[i] == s[i] && r[j] == s[j]);
        assert(!by_shown_name()(s[j], s[i]));
        crate::text::law_text_before_total(lowercase(s[i].name), lowercase(s[j].name));
        assert(lowercase(s[i].name) != lowercase(s[j].name));
    }
}

proof fn lemma_lines_apart(
    files: Seq<Seq<TagFieldModel>>,
    s: Seq<AggregatedTagFieldModel>,
)
    requires
        files.len() > 0,
        s == in_order(
            distinct(chosen(flat(files), filled()).map_values(lower_name())).map_values(
                aggregate_in(chosen(flat(files), filled())),
            ),
            by_shown_name(),
        ),
    ensures
        forall|i: int, j: int|
            0 <= i < j < s.len() ==> lowercase((#[trigger] s[i]).name) != lowercase(
                (#[trigger] s[j]).name,
            ),
{
    let fields = chosen(flat(files), filled());
    let lows = fields.map_values(lower_name());
    let names = distinct(lows);
    let all = names.map_values(aggregate_in(fields));
    law_distinct(lows);
    law_in_order(all, by_shown_name());
    assert forall|k: int| 0 <= k < all.len() implies lowercase((#[trigger] all[k]).name) == names[k] by {
        assert(names.contains(names[k]));
        lemma_aggregate(files, names[k]);
    }
    assert(all.no_duplicates());
    assert forall|i: int, j: int| 0 <= i < j < s.len() implies lowercase((#[trigger] s[i]).name)
        != lowercase((#[trigger] s[j]).name) by {
        if lowercase(s[i].name) == lowercase(s[j].name) {
            assert(all.contains(s[i]) && all.contains(s[j]));
            let a = choose|k: int| 0 <= k < all.len() && all[k] == s[i];
            let b = choose|k: int| 0 <= k < all.len() && all[k] == s[j];
            assert(names[a] == names[b]);
            assert(a == b);
            assert(s[i] == s[j]);
            lemma_twice(s, i, j);
            lemma_once(all, s[i]);
        }
    }
}

proof fn lemma_twice(s: Seq<AggregatedTagFieldModel>, i: int, j: int)
    requires
        0 <= i < j < s.len(),
        s[i] == s[j],
    ensures
        s.to_multiset().count(s[i]) >= 2,
{
    let a = s.take(j);
    let b = s.skip(j);
    assert(s =~= a + b);
    vstd::seq_lib::lemma_multiset_commutative(a, b);
    a.to_multiset_ensures();
    b.to_multiset_ensures();
    assert(a[i] == s[i]);
    assert(b[0] == s[i]);
    assert(a.contains(s[i]) && b.contains(s[i]));
}

proof fn lemma_once(s: Seq<AggregatedTagFieldModel>, x: AggregatedTagFieldModel)
    requires
        s.no_duplicates(),
    ensures
        s.to_multiset().count(x) <= 1,
{
    s.lemma_multiset_has_no_duplicates();
    if s.to_multiset().count(x) > 0 {
        assert(s.to_multiset().contains(x));
    }
}

/// Whether a value is what a tag had: that of the first line of its name, case
/// aside, or nothing where it was on no line.
pub open spec fn had(fields: Seq<TagFieldModel>, name: Seq<char>, value: Seq<char>) -> bool {
    ||| exists|i: int|
        0 <= i < fields.len() && alike((#[trigger] fields[i]).name, name) && fields[i].value == value
            && forall|j: int| 0 <= j < i ==> !alike((#[trigger] fields[j]).name, name)
    ||| value.len() == 0 && forall|j: int|
        0 <= j < fields.len() ==> !alike((#[trigger] fields[j]).name, name)
}

/// Whether two names are the same, the case of ASCII letters aside.
pub open spec fn alike(a: Seq<char>, b: Seq<char>) -> bool {
    a.len() == b.len() && forall|i: int|
        0 <= i < a.len() ==> #[trigger] a[i] == b[i] || ascii_small(a[i]) == ascii_small(b[i])
}

proof fn lemma_had(fields: Seq<TagFieldModel>, name: Seq<char>, value: Seq<char>)
    ensures
        had(fields, name, value) <==> value == former_value(fields, name),
{
    let k = first_place(fields, 0, named(name));
    law_first_place(fields, 0, named(name));
    assert forall|i: int| 0 <= i < fields.len() implies named(name)(fields[i]) == alike(
        (#[trigger] fields[i]).name,
        name,
    ) by {
        if named(name)(fields[i]) {
            assert(crate::text::same_but_case(fields[i].name, name));
        }
        if alike(fields[i].name, name) {
            assert(crate::text::same_but_case(fields[i].name, name));
        }
    }
    if k < fields.len() {
        assert(named(name)(fields[k as int]));
        assert(alike(fields[k as int].name, name));
        assert forall|j: int| 0 <= j < k implies !alike((#[trigger] fields[j]).name, name) by {
            assert(!named(name)(fields[j]));
        }
        if had(fields, name, value) {
            let i = choose|i: int|
                0 <= i < fields.len() && alike((#[trigger] fields[i]).name, name) && fields[i].value
                    == value && forall|j: int|
                    0 <= j < i ==> !alike((#[trigger] fields[j]).name, name);
            if i < k {
                assert(!alike(fields[i].name, name));
            }
            assert(i == k);
        }
    } else {
        assert forall|j: int| 0 <= j < fields.len() implies !alike(
            (#[trigger] fields[j]).name,
            name,
        ) by {
            assert(!named(name)(fields[j]));
        }
        if value.len() == 0 {
            assert(value =~= Seq::<char>::empty());
        }
    }
}

proof fn lemma_value_changes(
    n: nat,
    name: Seq<char>,
    value: Seq<char>,
    original: Seq<Seq<TagFieldModel>>,
    c: TagChangeModel,
)
    requires
        n <= original.len(),
        n <= usize::MAX,
    ensures
        value_changes(n, name, value, original).contains(c) <==> c.track_idx < n && c.field_name
            == name && c.new_value == value && c.old_value != value && had(
            original[c.track_idx as int],
            name,
            c.old_value,
        ),
    decreases n,
{
    if n > 0 {
        let k = (n - 1) as nat;
        lemma_value_changes(k, name, value, original, c);
        let r = value_changes(k, name, value, original);
        let all = value_changes(n, name, value, original);
        let old = former_value(original[k as int], name);
        lemma_had(original[k as int], name, c.old_value);
        if old != value {
            let last = all.last();
            assert(all == r.push(last));
            lemma_contains_joined(r, seq![last], c);
            assert(all =~= r + seq![last]);
            if seq![last].contains(c) {
                let j = choose|j: int| 0 <= j < 1 && seq![last][j] == c;
                assert(c == last);
            }
            if c == last {
                assert(seq![last][0] == c);
            }
        }
    }
}

/// An edit of many files changes a tag in each file where it had another value,
/// and in no other file; lines that were not edited change nothing.
pub proof fn law_edit_reaches_all_files(
    fields: Seq<AggregatedTagFieldModel>,
    original: Seq<Seq<TagFieldModel>>,
    c: TagChangeModel,
)
    requires
        original.len() <= usize::MAX,
    ensures
        aggregate_changes(fields, original.len(), original).contains(c) <==> c.track_idx
            < original.len() && c.old_value != c.new_value && had(
            original[c.track_idx as int],
            c.field_name,
            c.old_value,
        ) && exists|i: int|
            0 <= i < fields.len() && (#[trigger] fields[i]).name == c.field_name && fields[i].value
                == AggregatedValueModel::Edited(c.new_value),
    decreases fields.len(),
{
    if fields.len() > 0 {
        let init = fields.drop_last();
        let last = fields.last();
        law_edit_reaches_all_files(init, original, c);
        let r = aggregate_changes(init, original.len(), original);
        let edits = |fs: Seq<AggregatedTagFieldModel>|
            exists|i: int|
                0 <= i < fs.len() && (#[trigger] fs[i]).name == c.field_name && fs[i].value
                    == AggregatedValueModel::Edited(c.new_value);
        assert(edits(fields) <==> edits(init) || (last.name == c.field_name && last.value
            == AggregatedValueModel::Edited(c.new_value))) by {
            if edits(fields) {
                let i = choose|i: int|
                    0 <= i < fields.len() && (#[trigger] fields[i]).name == c.field_name
                        && fields[i].value == AggregatedValueModel::Edited(c.new_value);
                if i < init.len() {
                    assert(init[i] == fields[i]);
                }
            }
            if edits(init) {
                let i = choose|i: int|
                    0 <= i < init.len() && (#[trigger] init[i]).name == c.field_name
                        && init[i].value == AggregatedValueModel::Edited(c.new_value);
                assert(fields[i] == init[i]);
            }
            assert(fields[fields.len() - 1] == last);
        }
        match last.value {
            AggregatedValueModel::Edited(v) => {
                lemma_value_changes(original.len(), last.name, v, original, c);
                lemma_contains_joined(
                    r,
                    value_changes(original.len(), last.name, v, original),
                    c,
                );
            },
            _ => {},
        }
    }
}

} // verus!
