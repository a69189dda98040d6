//! What editing several tracks promises: the fields of a track, the changes that
//! are found, how they are grouped, and what each key does.

use vstd::prelude::*;

use crate::corpus::TrackModel;
use crate::input::{KeyCode, KeyEvent};
use crate::lists::{first_place, law_distinct, law_first_place, law_picked, picked, tally};
use crate::multi_track_editor::fields::{all_leading_fields, as_value_of, by_key, change_at, change_keys, changes_between, field_changes, fields_of_track, group_of, indexed_tags, key_of_change, keyed, leading_fields, leading_tags, lone, other_tag, set_apart, shared, shared_field, single_of, smaller, tag_is, tag_value, track_changes, track_of, tracks_with, ChangeKey, FieldModel, GroupedChangeModel};
use crate::multi_track_editor::state::TrackEditorModel;
use crate::ordering::{in_order, law_in_order_contains};
use crate::tag_editor::types::{FieldEditState, TagChangeModel};
use crate::text::signed_decimal;

verus! {

// ---------------------------------------------------------------------------
// Changes
// ---------------------------------------------------------------------------

/// Whether a change is that of one field into another of the same place.
pub open spec fn turns(c: TagChangeModel, from: FieldModel, to: FieldModel) -> bool {
    &&& from.name != "New Tag"@
    &&& to.name != "New Tag"@
    &&& from.value != to.value
    &&& c.field_name == to.name
    &&& c.old_value == from.value
    &&& c.new_value == to.value
}

proof fn lemma_joined(a: Seq<TagChangeModel>, b: Seq<TagChangeModel>, c: TagChangeModel)
    ensures
        (a + b).contains(c) <==> a.contains(c) || b.contains(c),
{
    if (a + b).contains(c) {
        let k = choose|k: int| 0 <= k < (a + b).len() && (a + b)[k] == c;
        if k < a.len() {
            assert(a[k] == c);
        } else {
            assert(b[k - a.len()] == c);
        }
    }
    if a.contains(c) {
        let k = choose|k: int| 0 <= k < a.len() && a[k] == c;
        assert((a + b)[k] == c);
    }
    if b.contains(c) {
        let k = choose|k: int| 0 <= k < b.len() && b[k] == c;
        assert((a + b)[a.len() + k] == c);
    }
}

proof fn lemma_field_changes(
    track_idx: usize,
    orig: Seq<FieldModel>,
    curr: Seq<FieldModel>,
    n: nat,
    c: TagChangeModel,
)
    requires
        n <= orig.len(),
        n <= curr.len(),
    ensures
        field_changes(track_idx, orig, curr, n).contains(c) <==> c.track_idx == track_idx
            && exists|j: int| 0 <= j < n && turns(c, #[trigger] orig[j], curr[j]),
    decreases n,
{
    if n > 0 {
        let k = (n - 1) as nat;
        lemma_field_changes(track_idx, orig, curr, k, c);
        let before = field_changes(track_idx, orig, curr, k);
        let after = field_changes(track_idx, orig, curr, n);
        let made = TagChangeModel {
            track_idx,
            field_name: curr[k as int].name,
            old_value: orig[k as int].value,
            new_value: curr[k as int].value,
        };
        if crate::multi_track_editor::fields::changes_value(orig[k as int], curr[k as int]) {
            assert(after =~= before + seq![made]);
            lemma_joined(before, seq![made], c);
            assert(seq![made][0] == made);
            if seq![made].contains(c) {
                assert(turns(c, orig[k as int], curr[k as int]));
            }
        }
    }
}

/// A change is found just where a field of a track has another value than it had,
/// and of the fields that create a tag none is.
pub proof fn law_changed_values_are_found(
    original: Seq<Seq<FieldModel>>,
    current: Seq<Seq<FieldModel>>,
    c: TagChangeModel,
)
    requires
        original.len() <= usize::MAX,
        current.len() <= usize::MAX,
    ensures
        changes_between(original, current).contains(c) <==> c.track_idx < original.len()
            && c.track_idx < current.len() && exists|j: int|
            0 <= j < original[c.track_idx as int].len() && j < current[c.track_idx as int].len()
                && turns(
                c,
                #[trigger] original[c.track_idx as int][j],
                current[c.track_idx as int][j],
            ),
{
    lemma_track_changes(original, current, smaller(original.len(), current.len()), c);
}

proof fn lemma_track_changes(
    original: Seq<Seq<FieldModel>>,
    current: Seq<Seq<FieldModel>>,
    n: nat,
    c: TagChangeModel,
)
    requires
        n <= original.len() <= usize::MAX,
        n <= current.len() <= usize::MAX,
    ensures
        track_changes(original, current, n).contains(c) <==> c.track_idx < n && exists|j: int|
            0 <= j < original[c.track_idx as int].len() && j < current[c.track_idx as int].len()
                && turns(
                c,
                #[trigger] original[c.track_idx as int][j],
                current[c.track_idx as int][j],
            ),
    decreases n,
{
    if n > 0 {
        let k = (n - 1) as nat;
        lemma_track_changes(original, current, k, c);
        let count = smaller(original[k as int].len(), current[k as int].len());
        let last = field_changes(k as usize, original[k as int], current[k as int], count);
        lemma_joined(track_changes(original, current, k), last, c);
        lemma_field_changes(k as usize, original[k as int], current[k as int], count, c);
        if last.contains(c) {
            let j = choose|j: int|
                0 <= j < count && turns(c, #[trigger] original[k as int][j], current[k as int][j]);
            assert(turns(
                c,
                original[c.track_idx as int][j],
                current[c.track_idx as int][j],
            ));
        }
        if c.track_idx == k && exists|j: int|
            0 <= j < original[c.track_idx as int].len() && j < current[c.track_idx as int].len()
                && turns(
                c,
                #[trigger] original[c.track_idx as int][j],
                current[c.track_idx as int][j],
            ) {
            let j = choose|j: int|
                0 <= j < original[c.track_idx as int].len() && j
                    < current[c.track_idx as int].len() && turns(
                    c,
                    #[trigger] original[c.track_idx as int][j],
                    current[c.track_idx as int][j],
                );
            assert(0 <= j < count && turns(c, original[k as int][j], current[k as int][j]));
        }
    }
}

/// Whether two changes are the same but for the track.
pub open spec fn same_edit(a: TagChangeModel, b: TagChangeModel) -> bool {
    a.field_name == b.field_name && a.old_value == b.old_value && a.new_value == b.new_value
}

/// Whether a change is made to several tracks alike.
pub open spec fn is_common(changes: Seq<TagChangeModel>, i: int) -> bool {
    exists|j: int| 0 <= j < changes.len() && j != i && same_edit(#[trigger] changes[j], changes[i])
}

proof fn lemma_tracks_with(changes: Seq<TagChangeModel>, i: int)
    requires
        0 <= i < changes.len(),
    ensures
        tracks_with(changes, key_of_change()(changes[i])).len() >= 1,
        tracks_with(changes, key_of_change()(changes[i])).len() > 1 <==> is_common(changes, i),
{
    let key = key_of_change()(changes[i]);
    law_picked(changes, keyed(key), track_of());
    assert(keyed(key)(changes[i]));
    lemma_tally_several(changes, keyed(key), i);
    if is_common(changes, i) {
        let j = choose|j: int|
            0 <= j < changes.len() && j != i && same_edit(#[trigger] changes[j], changes[i]);
        assert(keyed(key)(changes[j]));
    }
    if exists|j: int| 0 <= j < changes.len() && j != i && keyed(key)(#[trigger] changes[j]) {
        let j = choose|j: int| 0 <= j < changes.len() && j != i && keyed(key)(#[trigger] changes[j]);
        assert(same_edit(changes[j], changes[i]));
    }
}

proof fn lemma_tally_several(s: Seq<TagChangeModel>, p: spec_fn(TagChangeModel) -> bool, k: int)
    requires
        0 <= k < s.len(),
        p(s[k]),
    ensures
        tally(s, p) >= 1,
        tally(s, p) > 1 <==> exists|j: int| 0 <= j < s.len() && j != k && p(#[trigger] s[j]),
    decreases s.len(),
{
    let init = s.drop_last();
    let last = s.len() - 1;
    if k == last {
        crate::lists::law_tally(init, p);
        crate::lists::law_chosen(init, p);
        if tally(init, p) > 0 {
            let x = crate::lists::chosen(init, p)[0];
            assert(p(x) && init.contains(x));
            let j = choose|j: int| 0 <= j < init.len() && init[j] == x;
            assert(p(s[j]));
        }
        if exists|j: int| 0 <= j < s.len() && j != k && p(#[trigger] s[j]) {
            let j = choose|j: int| 0 <= j < s.len() && j != k && p(#[trigger] s[j]);
            assert(p(init[j]));
            assert(crate::lists::chosen(init, p).contains(init[j]));
        }
    } else {
        assert(init[k] == s[k]);
        lemma_tally_several(init, p, k);
        if tally(init, p) > 1 {
            let j = choose|j: int| 0 <= j < init.len() && j != k && p(#[trigger] init[j]);
            assert(p(s[j]));
        }
        if p(s[last]) {
        } else if exists|j: int| 0 <= j < s.len() && j != k && p(#[trigger] s[j]) {
            let j = choose|j: int| 0 <= j < s.len() && j != k && p(#[trigger] s[j]);
            assert(p(init[j]));
        }
    }
}

/// A change that is made to several tracks alike is shown once, with all of those
/// tracks and no other.
pub proof fn law_common_changes_are_grouped(changes: Seq<TagChangeModel>, g: GroupedChangeModel)
    ensures
        picked(change_keys(changes), shared(changes), group_of(changes)).contains(g) ==> exists|
            i: int,
        |
            0 <= i < changes.len() && (#[trigger] changes[i]).field_name == g.field_name
                && changes[i].old_value == g.old_value && changes[i].new_value == g.new_value
                && is_common(changes, i),
        picked(change_keys(changes), shared(changes), group_of(changes)).contains(g) ==> forall|
            t: usize,
        | #[trigger]
            g.track_indices.contains(t) <==> exists|j: int|
                0 <= j < changes.len() && (#[trigger] changes[j]).track_idx == t
                    && changes[j].field_name == g.field_name && changes[j].old_value == g.old_value
                    && changes[j].new_value == g.new_value,
{
    let keys = change_keys(changes);
    let all = changes.map_values(key_of_change());
    law_distinct(all);
    law_picked(keys, shared(changes), group_of(changes));
    if picked(keys, shared(changes), group_of(changes)).contains(g) {
        let k = choose|k: int|
            0 <= k < keys.len() && shared(changes)(#[trigger] keys[k]) && group_of(changes)(keys[k])
                == g;
        let key = keys[k];
        assert(keys.contains(key));
        assert(all.contains(key));
        let i = choose|i: int| 0 <= i < all.len() && all[i] == key;
        lemma_tracks_with(changes, i);
        assert(changes[i].field_name == g.field_name);
        law_picked(changes, keyed(key), track_of());
        assert forall|t: usize| #[trigger] g.track_indices.contains(t) <==> exists|j: int|
            0 <= j < changes.len() && (#[trigger] changes[j]).track_idx == t
                && changes[j].field_name == g.field_name && changes[j].old_value == g.old_value
                && changes[j].new_value == g.new_value by {
            if g.track_indices.contains(t) {
                let j = choose|j: int|
                    0 <= j < changes.len() && keyed(key)(#[trigger] changes[j]) && track_of()(
                        changes[j],
                    ) == t;
                assert(changes[j].track_idx == t);
            }
            if exists|j: int|
                0 <= j < changes.len() && (#[trigger] changes[j]).track_idx == t
                    && changes[j].field_name == g.field_name && changes[j].old_value == g.old_value
                    && changes[j].new_value == g.new_value {
                let j = choose|j: int|
                    0 <= j < changes.len() && (#[trigger] changes[j]).track_idx == t
                        && changes[j].field_name == g.field_name && changes[j].old_value
                        == g.old_value && changes[j].new_value == g.new_value;
                assert(keyed(key)(changes[j]) && track_of()(changes[j]) == t);
            }
        }
    }
}

/// Whether a group is of a change that several tracks share, with all of those
/// tracks and no other.
pub open spec fn gathers(changes: Seq<TagChangeModel>, g: GroupedChangeModel) -> bool {
    &&& exists|i: int|
        0 <= i < changes.len() && (#[trigger] changes[i]).field_name == g.field_name
            && changes[i].old_value == g.old_value && changes[i].new_value == g.new_value
            && is_common(changes, i)
    &&& forall|t: usize| #[trigger]
        g.track_indices.contains(t) <==> exists|j: int|
            0 <= j < changes.len() && (#[trigger] changes[j]).track_idx == t
                && changes[j].field_name == g.field_name && changes[j].old_value == g.old_value
                && changes[j].new_value == g.new_value
}

/// Whether no two changes of a track are of the same field.
pub open spec fn apart(changes: Seq<TagChangeModel>) -> bool {
    forall|a: int, b: int|
        0 <= a < b < changes.len() ==> (#[trigger] changes[a]).track_idx != (
        #[trigger] changes[b]).track_idx || changes[a].field_name != changes[b].field_name
}

/// Every change is shown: one that several tracks share in a group, any other by
/// itself, as it is. No two changes of a track are of the same field here.
pub proof fn law_every_change_is_shown(changes: Seq<TagChangeModel>, i: int)
    requires
        0 <= i < changes.len(),
        forall|a: int, b: int|
            0 <= a < b < changes.len() ==> (#[trigger] changes[a]).track_idx != (
            #[trigger] changes[b]).track_idx || changes[a].field_name != changes[b].field_name,
    ensures
        picked(change_keys(changes), lone(changes), single_of(changes)).contains(changes[i])
            <==> !is_common(changes, i),
        is_common(changes, i) <==> exists|g: GroupedChangeModel| #[trigger]
            picked(change_keys(changes), shared(changes), group_of(changes)).contains(g)
                && g.field_name == changes[i].field_name && g.old_value == changes[i].old_value
                && g.new_value == changes[i].new_value,
{
    let keys = change_keys(changes);
    let all = changes.map_values(key_of_change());
    let key = all[i];
    law_distinct(all);
    assert(all.contains(key));
    assert(keys.contains(key));
    let k = choose|k: int| 0 <= k < keys.len() && keys[k] == key;
    lemma_tracks_with(changes, i);
    law_picked(keys, shared(changes), group_of(changes));
    law_picked(keys, lone(changes), single_of(changes));
    let groups = picked(keys, shared(changes), group_of(changes));
    let singles = picked(keys, lone(changes), single_of(changes));
    if is_common(changes, i) {
        assert(shared(changes)(keys[k]));
        let g = group_of(changes)(keys[k]);
        assert(groups.contains(g));
    }
    if exists|g: GroupedChangeModel| #[trigger]
        groups.contains(g) && g.field_name == changes[i].field_name && g.old_value
            == changes[i].old_value && g.new_value == changes[i].new_value {
        let g = choose|g: GroupedChangeModel| #[trigger]
            groups.contains(g) && g.field_name == changes[i].field_name && g.old_value
                == changes[i].old_value && g.new_value == changes[i].new_value;
        let l = choose|l: int|
            0 <= l < keys.len() && shared(changes)(#[trigger] keys[l]) && group_of(changes)(keys[l])
                == g;
        assert(keys[l] == key);
    }
    if !is_common(changes, i) {
        assert(lone(changes)(keys[k]));
        lemma_single(changes, key, i);
        assert(singles.contains(changes[i]));
    }
    if singles.contains(changes[i]) {
        let l = choose|l: int|
            0 <= l < keys.len() && lone(changes)(#[trigger] keys[l]) && single_of(changes)(keys[l])
                == changes[i];
        assert(keys.contains(keys[l]));
        assert(all.contains(keys[l]));
        let j = choose|j: int| 0 <= j < all.len() && all[j] == keys[l];
        lemma_tracks_with(changes, j);
        lemma_single(changes, keys[l], j);
        assert(changes[j] == changes[i]);
        assert(keys[l] == key);
    }
}

proof fn lemma_single(changes: Seq<TagChangeModel>, key: ChangeKey, i: int)
    requires
        0 <= i < changes.len(),
        key == key_of_change()(changes[i]),
        !is_common(changes, i),
        forall|a: int, b: int|
            0 <= a < b < changes.len() ==> (#[trigger] changes[a]).track_idx != (
            #[trigger] changes[b]).track_idx || changes[a].field_name != changes[b].field_name,
    ensures
        single_of(changes)(key) == changes[i],
{
    lemma_tracks_with(changes, i);
    law_picked(changes, keyed(key), track_of());
    let tracks = tracks_with(changes, key);
    assert(tracks.contains(tracks[0]));
    let j = choose|j: int|
        0 <= j < changes.len() && keyed(key)(#[trigger] changes[j]) && track_of()(changes[j])
            == tracks[0];
    assert(same_edit(changes[j], changes[i]));
    assert(j == i);
    let p = change_at(tracks[0], key.0);
    law_first_place(changes, 0, p);
    let k = first_place(changes, 0, p);
    assert(p(changes[i]));
    assert(k < changes.len()) by {
        if k >= changes.len() {
            assert(!p(changes[i]));
        }
    }
    assert(p(changes[k as int]));
    if k < i {
        assert(changes[k as int].track_idx != changes[i].track_idx || changes[k as int].field_name
            != changes[i].field_name);
    }
    if i < k {
        assert(!p(changes[i]));
    }
}

// ---------------------------------------------------------------------------
// Fields
// ---------------------------------------------------------------------------

/// Whether a field is one of those that every track has: with the first value of
/// its tag, or none; the artists of the album each have one.
pub open spec fn is_leading(f: FieldModel, tags: Seq<(Seq<char>, Seq<char>)>) -> bool {
    &&& f.name == "track_number"@ || f.name == "title"@ || f.name == "artist"@ || f.name
        == "album"@ || f.name == "album_artist"@ || f.name == "date"@ || f.name == "genre"@
        || f.name == "isrc"@
    &&& f.editable
    &&& f.is_unique_per_track <==> f.name == "track_number"@ || f.name == "title"@
    &&& {
        ||| no_tag(tags, f.name) && f.value.len() == 0
        ||| f.name == "album_artist"@ && tags.contains((f.name, f.value))
        ||| f.name != "album_artist"@ && first_of(tags, f.name, f.value)
    }
}

/// Whether no tag has a name.
pub open spec fn no_tag(tags: Seq<(Seq<char>, Seq<char>)>, name: Seq<char>) -> bool {
    forall|i: int| 0 <= i < tags.len() ==> (#[trigger] tags[i]).0 != name
}

/// Whether a value is that of the first tag of a name.
pub open spec fn first_of(
    tags: Seq<(Seq<char>, Seq<char>)>,
    name: Seq<char>,
    value: Seq<char>,
) -> bool {
    exists|i: int|
        0 <= i < tags.len() && (#[trigger] tags[i]) == (name, value) && forall|j: int|
            0 <= j < i ==> (#[trigger] tags[j]).0 != name
}

/// Whether a tag is one of those that have their own fields, or that are none of
/// the editor's business.
pub open spec fn own_place(name: Seq<char>) -> bool {
    name == "track_number"@ || name == "title"@ || name == "artist"@ || name == "album"@ || name
        == "album_artist"@ || name == "date"@ || name == "genre"@ || name == "isrc"@ || name
        == "bitrate"@ || name == "sample_rate"@ || name == "duration"@ || name == "path"@ || name
        == "file_type"@
}

proof fn lemma_set_apart(name: Seq<char>)
    ensures
        set_apart().contains(name) <==> own_place(name),
{
    let s = set_apart();
    if own_place(name) {
        assert(s[0] == "track_number"@ && s[1] == "title"@ && s[2] == "artist"@ && s[3]
            == "album"@ && s[4] == "album_artist"@ && s[5] == "date"@ && s[6] == "genre"@ && s[7]
            == "isrc"@ && s[8] == "bitrate"@ && s[9] == "sample_rate"@ && s[10] == "duration"@
            && s[11] == "path"@ && s[12] == "file_type"@);
        assert(s.len() == 13);
    }
    if s.contains(name) {
        let i = choose|i: int| 0 <= i < s.len() && s[i] == name;
    }
}

/// The tags that do not have a place of their own each have a field, and no other
/// does; behind them stands the one that creates a tag.
pub proof fn law_other_tags_have_fields(
    t: TrackModel,
    tags: Seq<(Seq<char>, Seq<char>)>,
    f: FieldModel,
)
    ensures
        fields_of_track(t, Some(tags)).last().name == "New Tag"@,
        in_order(picked(tags, other_tag(), shared_field()), by_key()).contains(f) <==> f.editable
            && !f.is_unique_per_track && !own_place(f.name) && tags.contains((f.name, f.value)),
{
    let others = picked(tags, other_tag(), shared_field());
    law_picked(tags, other_tag(), shared_field());
    law_in_order_contains(others, by_key());
    lemma_set_apart(f.name);
    if others.contains(f) {
        let k = choose|k: int|
            0 <= k < tags.len() && other_tag()(#[trigger] tags[k]) && shared_field()(tags[k]) == f;
        assert(tags[k] == (f.name, f.value));
    }
    if tags.contains((f.name, f.value)) {
        let k = choose|k: int| 0 <= k < tags.len() && tags[k] == (f.name, f.value);
        if f.editable && !f.is_unique_per_track && !own_place(f.name) {
            assert(other_tag()(tags[k]) && shared_field()(tags[k]) == f);
            assert(others.contains(f));
        }
    }
}

proof fn lemma_values(tags: Seq<(Seq<char>, Seq<char>)>, name: Seq<char>)
    ensures
        ({
            let values = picked(tags, tag_is(name), tag_value());
            &&& values.len() == 0 <==> no_tag(tags, name)
            &&& forall|v: Seq<char>| #[trigger] values.contains(v) <==> tags.contains((name, v))
            &&& values.len() > 0 ==> first_of(tags, name, values[0])
        }),
    decreases tags.len(),
{
    let p = tag_is(name);
    let values = picked(tags, p, tag_value());
    law_picked(tags, p, tag_value());
    assert forall|v: Seq<char>| #[trigger] values.contains(v) <==> tags.contains((name, v)) by {
        if values.contains(v) {
            let k = choose|k: int|
                0 <= k < tags.len() && p(#[trigger] tags[k]) && tag_value()(tags[k]) == v;
            assert(tags[k] == (name, v));
        }
        if tags.contains((name, v)) {
            let k = choose|k: int| 0 <= k < tags.len() && tags[k] == (name, v);
            assert(p(tags[k]) && tag_value()(tags[k]) == v);
        }
    }
    if tags.len() > 0 {
        let init = tags.drop_last();
        lemma_values(init, name);
        let before = picked(init, p, tag_value());
        let last = tags.last();
        if p(last) {
            assert(crate::lists::chosen(tags, p) == crate::lists::chosen(init, p).push(last));
            assert(values =~= before.push(last.1));
            if before.len() == 0 {
                assert(tags[tags.len() - 1] == (name, values[0]));
                assert forall|j: int| 0 <= j < tags.len() - 1 implies (#[trigger] tags[j]).0
                    != name by {
                    assert(init[j].0 != name);
                }
                assert(first_of(tags, name, values[0]));
            }
            assert(tags[tags.len() - 1].0 == name);
        } else {
            assert(values =~= before);
        }
        if before.len() > 0 {
            assert(values[0] == before[0]);
            let i = choose|i: int|
                0 <= i < init.len() && (#[trigger] init[i]) == (name, before[0]) && forall|j: int|
                    0 <= j < i ==> (#[trigger] init[j]).0 != name;
            assert(tags[i] == (name, before[0]));
            assert forall|j: int| 0 <= j < i implies (#[trigger] tags[j]).0 != name by {
                assert(init[j].0 != name);
            }
            assert(first_of(tags, name, values[0]));
            assert(tags[i].0 == name);
        } else if !p(last) {
            assert forall|j: int| 0 <= j < tags.len() implies (#[trigger] tags[j]).0 != name by {
                if j < init.len() {
                    assert(init[j].0 != name);
                }
            }
        }
    }
}

proof fn lemma_first_of_is_one(
    tags: Seq<(Seq<char>, Seq<char>)>,
    name: Seq<char>,
    a: Seq<char>,
    b: Seq<char>,
)
    requires
        first_of(tags, name, a),
        first_of(tags, name, b),
    ensures
        a == b,
{
    let i = choose|i: int|
        0 <= i < tags.len() && (#[trigger] tags[i]) == (name, a) && forall|j: int|
            0 <= j < i ==> (#[trigger] tags[j]).0 != name;
    let k = choose|i: int|
        0 <= i < tags.len() && (#[trigger] tags[i]) == (name, b) && forall|j: int|
            0 <= j < i ==> (#[trigger] tags[j]).0 != name;
    if i < k {
        assert(tags[i].0 != name);
    }
    if k < i {
        assert(tags[k].0 != name);
    }
}

proof fn lemma_leading(
    tags: Seq<(Seq<char>, Seq<char>)>,
    name: Seq<char>,
    unique: bool,
    f: FieldModel,
)
    ensures
        leading_fields(tags, name, unique).contains(f) <==> f.name == name && f.editable
            && f.is_unique_per_track == unique && ((no_tag(tags, name) && f.value.len() == 0) || (
        name == "album_artist"@ && tags.contains((name, f.value))) || (name != "album_artist"@
            && first_of(tags, name, f.value))),
{
    lemma_values(tags, name);
    let values = picked(tags, tag_is(name), tag_value());
    let r = leading_fields(tags, name, unique);
    let g = as_value_of(name, unique);
    if f.value.len() == 0 {
        assert(f.value =~= Seq::<char>::empty());
    }
    if values.len() == 0 {
        assert(r[0] == g(Seq::empty()));
        if tags.contains((name, f.value)) {
            let k = choose|k: int| 0 <= k < tags.len() && tags[k] == (name, f.value);
            assert(tags[k].0 != name);
        }
        assert(!first_of(tags, name, f.value)) by {
            if first_of(tags, name, f.value) {
                let i = choose|i: int|
                    0 <= i < tags.len() && (#[trigger] tags[i]) == (name, f.value);
                assert(tags[i].0 != name);
            }
        }
    } else if name == "album_artist"@ {
        if r.contains(f) {
            let k = choose|k: int| 0 <= k < r.len() && r[k] == f;
            assert(values[k] == f.value);
            assert(values.contains(f.value));
        }
        if f == g(f.value) && tags.contains((name, f.value)) {
            assert(values.contains(f.value));
            let k = choose|k: int| 0 <= k < values.len() && values[k] == f.value;
            assert(r[k] == f);
        }
    } else {
        assert(r[0] == g(values[0]));
        if first_of(tags, name, f.value) {
            lemma_first_of_is_one(tags, name, f.value, values[0]);
        }
    }
}

/// The fields that every track has, and what they hold: the first value of their
/// tag, or nothing; and for the artists of the album each value.
pub proof fn law_every_track_has_the_leading_fields(
    tags: Seq<(Seq<char>, Seq<char>)>,
    f: FieldModel,
)
    ensures
        all_leading_fields(tags, leading_tags()).contains(f) <==> is_leading(f, tags),
{
    reveal_strlit("track_number");
    reveal_strlit("title");
    reveal_strlit("artist");
    reveal_strlit("album");
    reveal_strlit("album_artist");
    reveal_strlit("date");
    reveal_strlit("genre");
    reveal_strlit("isrc");
    let l = leading_tags();
    assert(l.len() == 8);
    assert(l[0] == ("track_number"@, true) && l[1] == ("title"@, true) && l[2] == (
        "artist"@,
        false,
    ) && l[3] == ("album"@, false) && l[4] == ("album_artist"@, false) && l[5] == ("date"@, false)
        && l[6] == ("genre"@, false) && l[7] == ("isrc"@, false));
    lemma_all_leading(tags, l, f);
    if all_leading_fields(tags, l).contains(f) {
        let k = choose|k: int|
            0 <= k < l.len() && leading_fields(tags, (#[trigger] l[k]).0, l[k].1).contains(f);
        lemma_leading(tags, l[k].0, l[k].1, f);
        assert("track_number"@.len() == 12 && "title"@.len() == 5 && "artist"@.len() == 6
            && "album"@.len() == 5 && "album_artist"@.len() == 12 && "date"@.len() == 4
            && "genre"@.len() == 5 && "isrc"@.len() == 4);
        assert("title"@[0] == 't' && "album"@[0] == 'a' && "genre"@[0] == 'g'
            && "track_number"@[0] == 't' && "album_artist"@[0] == 'a');
    }
    if is_leading(f, tags) {
        let k: int = if f.name == "track_number"@ {
            0
        } else if f.name == "title"@ {
            1
        } else if f.name == "artist"@ {
            2
        } else if f.name == "album"@ {
            3
        } else if f.name == "album_artist"@ {
            4
        } else if f.name == "date"@ {
            5
        } else if f.name == "genre"@ {
            6
        } else {
            7
        };
        lemma_leading(tags, l[k].0, l[k].1, f);
        assert(leading_fields(tags, l[k].0, l[k].1).contains(f));
    }
}

proof fn lemma_all_leading(
    tags: Seq<(Seq<char>, Seq<char>)>,
    l: Seq<(Seq<char>, bool)>,
    f: FieldModel,
)
    ensures
        all_leading_fields(tags, l).contains(f) <==> exists|k: int|
            0 <= k < l.len() && leading_fields(tags, (#[trigger] l[k]).0, l[k].1).contains(f),
    decreases l.len(),
{
    if l.len() > 0 {
        let init = l.drop_last();
        lemma_all_leading(tags, init, f);
        let a = all_leading_fields(tags, init);
        let b = leading_fields(tags, l.last().0, l.last().1);
        let all = all_leading_fields(tags, l);
        if all.contains(f) {
            let i = choose|i: int| 0 <= i < all.len() && all[i] == f;
            if i < a.len() {
                assert(a[i] == f);
                assert(a.contains(f));
                let k = choose|k: int|
                    0 <= k < init.len() && leading_fields(
                        tags,
                        (#[trigger] init[k]).0,
                        init[k].1,
                    ).contains(f);
                assert(l[k] == init[k]);
            } else {
                assert(b[i - a.len()] == f);
                assert(l[l.len() - 1] == l.last());
                assert(b.contains(f));
            }
        }
        if exists|k: int|
            0 <= k < l.len() && leading_fields(tags, (#[trigger] l[k]).0, l[k].1).contains(f) {
            let k = choose|k: int|
                0 <= k < l.len() && leading_fields(tags, (#[trigger] l[k]).0, l[k].1).contains(f);
            if k < init.len() {
                assert(init[k] == l[k]);
                assert(a.contains(f));
                let i = choose|i: int| 0 <= i < a.len() && a[i] == f;
                assert(all[i] == f);
            } else {
                let i = choose|i: int| 0 <= i < b.len() && b[i] == f;
                assert(all[a.len() + i] == f);
            }
        }
    }
}

/// A track that could not be read has the tags that the index knows of it.
pub proof fn law_tags_of_the_index(t: TrackModel, v: Seq<char>)
    ensures
        indexed_tags(t).contains(("artist"@, v)) <==> t.artist == Some(v),
        indexed_tags(t).contains(("album"@, v)) <==> t.album == Some(v),
        indexed_tags(t).contains(("album_artist"@, v)) <==> t.album_artist == Some(v),
        indexed_tags(t).contains(("title"@, v)) <==> t.title == Some(v),
        indexed_tags(t).contains(("isrc"@, v)) <==> t.isrc == Some(v),
        indexed_tags(t).contains(("track_number"@, v)) <==> t.track_number is Some && v
            == signed_decimal(t.track_number->0 as int),
{
    reveal_strlit("track_number");
    reveal_strlit("title");
    reveal_strlit("artist");
    reveal_strlit("album");
    reveal_strlit("album_artist");
    reveal_strlit("isrc");
    assert("track_number"@.len() == 12 && "title"@.len() == 5 && "artist"@.len() == 6
        && "album"@.len() == 5 && "album_artist"@.len() == 12 && "isrc"@.len() == 4);
    assert("title"@[0] == 't' && "album"@[0] == 'a' && "track_number"@[0] == 't'
        && "album_artist"@[0] == 'a');
    let number: Option<Seq<char>> = match t.track_number {
        Some(n) => Some(signed_decimal(n as int)),
        None => None,
    };
    assert forall|name: Seq<char>| #[trigger] indexed_tags(t).contains((name, v)) <==> (name
        == "artist"@ && t.artist == Some(v)) || (name == "album"@ && t.album == Some(v)) || (name
        == "album_artist"@ && t.album_artist == Some(v)) || (name == "title"@ && t.title == Some(v))
        || (name == "track_number"@ && number == Some(v)) || (name == "isrc"@ && t.isrc == Some(
        v,
    )) by {
        let x = (name, v);
        let a = crate::multi_track_editor::fields::tag_if("artist"@, t.artist);
        let b = crate::multi_track_editor::fields::tag_if("album"@, t.album);
        let c = crate::multi_track_editor::fields::tag_if("album_artist"@, t.album_artist);
        let d = crate::multi_track_editor::fields::tag_if("title"@, t.title);
        let e = crate::multi_track_editor::fields::tag_if("track_number"@, number);
        let f = crate::multi_track_editor::fields::tag_if("isrc"@, t.isrc);
        lemma_tags_joined(a, b, x);
        lemma_tags_joined(a + b, c, x);
        lemma_tags_joined(a + b + c, d, x);
        lemma_tags_joined(a + b + c + d, e, x);
        lemma_tags_joined(a + b + c + d + e, f, x);
        lemma_tag_if("artist"@, t.artist, x);
        lemma_tag_if("album"@, t.album, x);
        lemma_tag_if("album_artist"@, t.album_artist, x);
        lemma_tag_if("title"@, t.title, x);
        lemma_tag_if("track_number"@, number, x);
        lemma_tag_if("isrc"@, t.isrc, x);
    }
}

proof fn lemma_tag_if(name: Seq<char>, value: Option<Seq<char>>, x: (Seq<char>, Seq<char>))
    ensures
        crate::multi_track_editor::fields::tag_if(name, value).contains(x) <==> x.0 == name && value
            == Some(x.1),
{
    let s = crate::multi_track_editor::fields::tag_if(name, value);
    if value is Some {
        assert(s[0] == (name, value->0));
    }
}

proof fn lemma_tags_joined(
    a: Seq<(Seq<char>, Seq<char>)>,
    b: Seq<(Seq<char>, Seq<char>)>,
    x: (Seq<char>, Seq<char>),
)
    ensures
        (a + b).contains(x) <==> a.contains(x) || b.contains(x),
{
    if (a + b).contains(x) {
        let k = choose|k: int| 0 <= k < (a + b).len() && (a + b)[k] == x;
        if k < a.len() {
            assert(a[k] == x);
        } else {
            assert(b[k - a.len()] == x);
        }
    }
    if a.contains(x) {
        let k = choose|k: int| 0 <= k < a.len() && a[k] == x;
        assert((a + b)[k] == x);
    }
    if b.contains(x) {
        let k = choose|k: int| 0 <= k < b.len() && b[k] == x;
        assert((a + b)[a.len() + k] == x);
    }
}

// ---------------------------------------------------------------------------
// Keys
// ---------------------------------------------------------------------------

/// Whether a field is in hand.
pub open spec fn on_field(m: TrackEditorModel) -> bool {
    m.current_track_idx < m.tag_fields.len() && m.current_field_idx
        < m.tag_fields[m.current_track_idx as int].len()
}

/// The field in hand.
pub open spec fn the_field(m: TrackEditorModel) -> FieldModel {
    m.tag_fields[m.current_track_idx as int][m.current_field_idx as int]
}

/// Whether all fields but one are the same.
pub open spec fn rest_stays(
    a: Seq<Seq<FieldModel>>,
    b: Seq<Seq<FieldModel>>,
    track: int,
    field: int,
) -> bool {
    &&& a.len() == b.len()
    &&& forall|i: int| 0 <= i < a.len() && i != track ==> #[trigger] a[i] == b[i]
    &&& a[track].len() == b[track].len()
    &&& forall|j: int| 0 <= j < a[track].len() && j != field ==> #[trigger] a[track][j] == b[track][j]
}

/// What is written when an edit ends: the buffer, into the field in hand.
pub open spec fn written_to(m: TrackEditorModel) -> FieldModel {
    if m.field_edit_state == FieldEditState::EditingName {
        FieldModel { name: m.name_buffer, ..the_field(m) }
    } else if m.field_edit_state == FieldEditState::EditingValue {
        FieldModel { value: m.value_buffer, ..the_field(m) }
    } else {
        the_field(m)
    }
}

/// Enter begins to edit the name or the value of the field in hand from what it
/// holds, and writes it there when it ends.
pub proof fn law_enter_edits_the_field(m: TrackEditorModel, shift: bool, control: bool)
    requires
        on_field(m),
        the_field(m).name != "New Tag"@,
    ensures
        ({
            let n = m.key_step(KeyEvent { code: KeyCode::Enter, shift, control }).0;
            let track = m.current_track_idx as int;
            let field = m.current_field_idx as int;
            let browsing = m.field_edit_state == FieldEditState::NonEditable;
            &&& rest_stays(n.tag_fields, m.tag_fields, track, field)
            &&& n.tag_fields[track][field] == written_to(m)
            &&& browsing ==> n.name_buffer == the_field(m).name && n.value_buffer
                == the_field(m).value
            &&& browsing && m.focus_on_value ==> n.field_edit_state == FieldEditState::EditingValue
            &&& browsing && !m.focus_on_value ==> n.field_edit_state == FieldEditState::EditingName
            &&& !browsing ==> n.field_edit_state == FieldEditState::NonEditable
        }),
{
}

/// Enter on the last line puts a new tag before it, with no value, and edits its
/// name.
pub proof fn law_new_tag_is_put_before_the_last(m: TrackEditorModel, shift: bool, control: bool)
    requires
        on_field(m),
        the_field(m).name == "New Tag"@,
        m.tag_fields[m.current_track_idx as int].len() <= usize::MAX,
    ensures
        ({
            let n = m.key_step(KeyEvent { code: KeyCode::Enter, shift, control }).0;
            let before = m.tag_fields[m.current_track_idx as int];
            let after = n.tag_fields[m.current_track_idx as int];
            let at = before.len() - 1;
            &&& after.len() == before.len() + 1
            &&& after.take(at) == before.take(at)
            &&& after.last() == before.last()
            &&& after[at] == FieldModel {
                name: "new_tag"@,
                value: Seq::empty(),
                editable: true,
                is_unique_per_track: false,
            }
            &&& n.current_field_idx == at
            &&& n.field_edit_state == FieldEditState::EditingName && n.name_buffer == "new_tag"@
            &&& n.tag_fields.len() == m.tag_fields.len()
            &&& forall|i: int|
                0 <= i < m.tag_fields.len() && i != m.current_track_idx ==> #[trigger] n.tag_fields[i]
                    == m.tag_fields[i]
        }),
{
    let n = m.key_step(KeyEvent { code: KeyCode::Enter, shift, control }).0;
    let before = m.tag_fields[m.current_track_idx as int];
    assert(n.tag_fields[m.current_track_idx as int].take(before.len() - 1) =~= before.take(
        before.len() - 1,
    ));
}

/// Up and down go field by field, Tab and Shift+Tab track by track; each writes
/// what is edited and does not go past the ends. Behind the last track the editor
/// asks whether to save.
pub proof fn law_fields_and_tracks_are_walked(m: TrackEditorModel, control: bool)
    requires
        on_field(m),
        m.tracks.len() == m.tag_fields.len(),
        m.tag_fields.len() <= usize::MAX,
        m.tag_fields[m.current_track_idx as int].len() <= usize::MAX,
    ensures
        ({
            let up = m.key_step(KeyEvent { code: KeyCode::Up, shift: false, control }).0;
            let down = m.key_step(KeyEvent { code: KeyCode::Down, shift: false, control }).0;
            let next = m.key_step(KeyEvent { code: KeyCode::Tab, shift: false, control });
            let prev = m.key_step(KeyEvent { code: KeyCode::Tab, shift: true, control });
            let track = m.current_track_idx as int;
            let field = m.current_field_idx as int;
            &&& rest_stays(up.tag_fields, m.tag_fields, track, field) && up.tag_fields[track][field]
                == written_to(m)
            &&& down.tag_fields == up.tag_fields && next.0.tag_fields == up.tag_fields
                && prev.0.tag_fields == up.tag_fields
            &&& up.current_track_idx == track && down.current_track_idx == track
            &&& up.current_field_idx == (if field == 0 {
                0
            } else {
                field - 1
            })
            &&& down.current_field_idx == (if field + 1 == m.tag_fields[track].len() {
                field
            } else {
                field + 1
            })
            &&& track + 1 < m.tracks.len() ==> next.0.current_track_idx == track + 1
                && next.0.current_field_idx == 0 && next.1 is Nothing
            &&& track + 1 == m.tracks.len() ==> next.0.current_track_idx == track
                && next.1 is ShowModal
            &&& track > 0 ==> prev.0.current_track_idx == track - 1 && prev.0.current_field_idx == 0
            &&& track == 0 ==> prev.0.current_track_idx == 0
            &&& prev.1 is Nothing
        }),
{
}

/// What is typed goes to the end of what is edited, and Backspace takes it from
/// there; no field changes meanwhile.
pub proof fn law_typing_goes_to_the_buffer(m: TrackEditorModel, c: char, shift: bool)
    requires
        c != 'f' && c != 'F',
    ensures
        ({
            let typed = m.key_step(KeyEvent { code: KeyCode::Char(c), shift, control: false }).0;
            let back = m.key_step(KeyEvent { code: KeyCode::Backspace, shift, control: false }).0;
            let name = m.field_edit_state == FieldEditState::EditingName;
            let value = m.field_edit_state == FieldEditState::EditingValue;
            &&& typed.tag_fields == m.tag_fields && back.tag_fields == m.tag_fields
            &&& typed.name_buffer == (if name {
                m.name_buffer + seq![c]
            } else {
                m.name_buffer
            })
            &&& typed.value_buffer == (if value {
                m.value_buffer + seq![c]
            } else {
                m.value_buffer
            })
            &&& name && m.name_buffer.len() > 0 ==> back.name_buffer + seq![m.name_buffer.last()]
                == m.name_buffer
            &&& value && m.value_buffer.len() > 0 ==> back.value_buffer
                + seq![m.value_buffer.last()] == m.value_buffer
            &&& !name ==> back.name_buffer == m.name_buffer
            &&& !value ==> back.value_buffer == m.value_buffer
        }),
{
    assert(m.name_buffer.push(c) =~= m.name_buffer + seq![c]);
    assert(m.value_buffer.push(c) =~= m.value_buffer + seq![c]);
    if m.name_buffer.len() > 0 {
        assert(m.name_buffer.drop_last() + seq![m.name_buffer.last()] =~= m.name_buffer);
    }
    if m.value_buffer.len() > 0 {
        assert(m.value_buffer.drop_last() + seq![m.value_buffer.last()] =~= m.value_buffer);
    }
}

/// F gives the value in hand to the fields of its name in all tracks, except those
/// that each track has its own of; without a value, or from such a field, it does
/// nothing.
pub proof fn law_value_is_filled_in(m: TrackEditorModel, shift: bool, i: int, k: int)
    requires
        on_field(m),
        0 <= i < m.tag_fields.len(),
        0 <= k < m.tag_fields[i].len(),
    ensures
        ({
            let n = m.key_step(KeyEvent { code: KeyCode::Char('f'), shift, control: false });
            let f = the_field(m);
            let fills = !f.is_unique_per_track && f.value.len() > 0 && f.name != "New Tag"@;
            let before = m.tag_fields[i][k];
            &&& fills && before.name == f.name && !before.is_unique_per_track
                ==> n.0.tag_fields[i][k] == FieldModel { value: f.value, ..before }
            &&& !(fills && before.name == f.name && !before.is_unique_per_track)
                ==> n.0.tag_fields[i][k] == before
            &&& fills <==> n.1 is StatusMessage
            &&& !fills ==> n.0 == m
            &&& n.0.tag_fields.len() == m.tag_fields.len() && n.0.tag_fields[i].len()
                == m.tag_fields[i].len()
        }),
{
}

/// Esc ends an edit without writing it, and else leaves; left and right go to the
/// names and to the values; Ctrl+U empties what is edited, or the field in hand.
pub proof fn law_escape_arrows_and_clearing(m: TrackEditorModel, shift: bool, control: bool)
    requires
        on_field(m),
    ensures
        ({
            let esc = m.key_step(KeyEvent { code: KeyCode::Esc, shift, control });
            let left = m.key_step(KeyEvent { code: KeyCode::Left, shift, control }).0;
            let right = m.key_step(KeyEvent { code: KeyCode::Right, shift, control }).0;
            let none = m.key_step(KeyEvent { code: KeyCode::Char('u'), shift, control: true }).0;
            let browsing = m.field_edit_state == FieldEditState::NonEditable;
            &&& browsing ==> esc.1 is Exit && esc.0 == m
            &&& !browsing ==> esc.1 is Nothing && esc.0.field_edit_state
                == FieldEditState::NonEditable && esc.0.tag_fields == m.tag_fields
            &&& !left.focus_on_value && right.focus_on_value
            &&& left.tag_fields == m.tag_fields && right.tag_fields == m.tag_fields
            &&& m.field_edit_state == FieldEditState::EditingName ==> none.name_buffer.len() == 0
                && none.value_buffer == m.value_buffer && none.tag_fields == m.tag_fields
            &&& m.field_edit_state == FieldEditState::EditingValue ==> none.value_buffer.len() == 0
                && none.name_buffer == m.name_buffer && none.tag_fields == m.tag_fields
            &&& browsing ==> rest_stays(
                none.tag_fields,
                m.tag_fields,
                m.current_track_idx as int,
                m.current_field_idx as int,
            ) && the_field(none) == FieldModel { value: Seq::empty(), ..the_field(m) }
        }),
{
}

} // verus!
