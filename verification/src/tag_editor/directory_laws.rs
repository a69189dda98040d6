//! What editing a whole directory promises: what its files have in common, what
//! each key does, and what is changed.

use vstd::prelude::*;

use crate::input::{KeyCode, KeyEvent};
use crate::lists::{chosen, distinct, first_place, flat, law_chosen, law_distinct, law_first_place, law_picked, picked};
use crate::ordering::{law_in_order, law_in_order_contains};
use crate::paths;
use crate::tag_editor::directory_state::{aggregated_directory, agrees, beyond_core, core_tags, directories_in, entry_path, file_tags, first_value, has_tag, other_tags, plain_directory, siblings_of, tag_name, tag_named, value_across, DirectoryModel, DirectoryTagChangeModel, DirectoryTagEditorActionModel, DirectoryTagEditorFocus, DirectoryTagEditorModal, FileEntryModel, GatheringMessageModel};
use crate::tag_editor::types::{AggregatedTagFieldModel, AggregatedValueModel, FieldEditState};

verus! {

/// Whether a file has a tag whose first value is the given one.
pub open spec fn bears_value(f: FileEntryModel, name: Seq<char>, value: Seq<char>) -> bool {
    exists|i: int|
        0 <= i < f.tags.len() && (#[trigger] f.tags[i]) == (name, value) && forall|j: int|
            0 <= j < i ==> (#[trigger] f.tags[j]).0 != name
}

/// Whether a file has no tag of a name.
pub open spec fn lacks(f: FileEntryModel, name: Seq<char>) -> bool {
    forall|i: int| 0 <= i < f.tags.len() ==> (#[trigger] f.tags[i]).0 != name
}

proof fn lemma_first_value(f: FileEntryModel, name: Seq<char>, value: Seq<char>)
    ensures
        bears_value(f, name, value) <==> first_value(f, name) == Some(value),
        lacks(f, name) <==> first_value(f, name) is None,
{
    let p = tag_named(name);
    let k = first_place(f.tags, 0, p);
    law_first_place(f.tags, 0, p);
    if k < f.tags.len() {
        assert(p(f.tags[k as int]));
        assert(f.tags[k as int].0 == name);
        assert forall|j: int| 0 <= j < k implies (#[trigger] f.tags[j]).0 != name by {
            assert(!p(f.tags[j]));
        }
        if bears_value(f, name, value) {
            let i = choose|i: int|
                0 <= i < f.tags.len() && (#[trigger] f.tags[i]) == (name, value) && forall|j: int|
                    0 <= j < i ==> (#[trigger] f.tags[j]).0 != name;
            if i < k {
                assert(f.tags[i].0 != name);
            }
            assert(i == k);
        }
        if first_value(f, name) == Some(value) {
            assert(f.tags[k as int] == (name, value));
        }
    } else {
        assert forall|j: int| 0 <= j < f.tags.len() implies (#[trigger] f.tags[j]).0 != name by {
            assert(!p(f.tags[j]));
        }
    }
}

/// A value is shown for all files where every file has it; a file without the tag
/// counts as one with an empty value.
pub proof fn law_files_have_a_value_in_common(
    files: Seq<FileEntryModel>,
    name: Seq<char>,
    value: Seq<char>,
)
    requires
        files.len() > 0,
    ensures
        value_across(files, name) == AggregatedValueModel::Consistent(value) <==> forall|k: int|
            0 <= k < files.len() ==> bears_value(#[trigger] files[k], name, value) || (lacks(
                files[k],
                name,
            ) && value.len() == 0),
        value_across(files, name) is Consistent || value_across(files, name) is Various,
{
    let p = has_tag(name);
    let i = first_place(files, 0, p);
    law_first_place(files, 0, p);
    assert forall|k: int| 0 <= k < files.len() implies agrees(#[trigger] files[k], name, value) == (
    bears_value(files[k], name, value) || (lacks(files[k], name) && value.len() == 0)) by {
        lemma_first_value(files[k], name, value);
    }
    if i >= files.len() {
        assert forall|k: int| 0 <= k < files.len() implies first_value(
            #[trigger] files[k],
            name,
        ) is None by {
            assert(!p(files[k]));
        }
        if value.len() == 0 {
            assert(value =~= Seq::<char>::empty());
        } else {
            assert(!agrees(files[0], name, value));
            lemma_first_value(files[0], name, value);
        }
        assert forall|k: int| 0 <= k < files.len() && value.len() == 0 implies agrees(
            #[trigger] files[k],
            name,
            value,
        ) by {}
    } else {
        assert(p(files[i as int]));
        let first = first_value(files[i as int], name)->0;
        if forall|k: int| 0 <= k < files.len() ==> agrees(#[trigger] files[k], name, value) {
            assert(agrees(files[i as int], name, value));
            assert(first == value);
        }
        if forall|k: int|
            0 <= k < files.len() ==> bears_value(#[trigger] files[k], name, value) || (lacks(
                files[k],
                name,
            ) && value.len() == 0) {
            assert forall|k: int| 0 <= k < files.len() implies agrees(
                #[trigger] files[k],
                name,
                value,
            ) by {}
        }
    }
}

/// The fields of a directory are the core ones in their order, then any other tag
/// of a file, then the line that creates one; each holds what the files have in
/// common.
pub proof fn law_directory_fields(files: Seq<FileEntryModel>)
    requires
        files.len() > 0,
    ensures
        ({
            let r = aggregated_directory(files);
            &&& r.len() >= 8
            &&& r[0].name == "track_number"@ && r[1].name == "title"@ && r[2].name == "artist"@
                && r[3].name == "album"@ && r[4].name == "album_artist"@ && r[5].name == "genre"@
                && r[6].name == "isrc"@
            &&& r.last().name == "New Tag"@
            &&& forall|i: int|
                0 <= i < r.len() - 1 ==> (#[trigger] r[i]).value == value_across(files, r[i].name)
                    && r[i].original_value == r[i].value
            &&& forall|i: int, j: int|
                7 <= i < j < r.len() - 1 ==> !crate::text::text_before(
                    (#[trigger] r[j]).name,
                    (#[trigger] r[i]).name,
                )
        }),
        aggregated_directory(Seq::empty()).len() == 1,
        aggregated_directory(Seq::empty())[0].name == "New Tag"@,
{
    let r = aggregated_directory(files);
    assert(core_tags().len() == 7);
    let all = chosen(
        distinct(flat(files.map_values(file_tags())).map_values(tag_name())),
        beyond_core(),
    );
    let by_text = |a: Seq<char>, b: Seq<char>| <String as crate::ordering::Ranked>::precedes(a, b);
    lemma_text_ranks();
    law_in_order(all, by_text);
    assert forall|i: int, j: int| 7 <= i < j < r.len() - 1 implies !crate::text::text_before(
        (#[trigger] r[j]).name,
        (#[trigger] r[i]).name,
    ) by {
        let s = other_tags(files);
        assert(r[i].name == s[i - 7] && r[j].name == s[j - 7]);
        assert(!by_text(s[j - 7], s[i - 7]));
    }
}

proof fn lemma_text_ranks()
    ensures
        crate::ordering::ranks(
            |a: Seq<char>, b: Seq<char>| <String as crate::ordering::Ranked>::precedes(a, b),
        ),
{
    assert forall|a: Seq<char>, b: Seq<char>, c: Seq<char>|
        #![trigger crate::text::text_before(a, b), crate::text::text_before(b, c)]
        crate::text::text_before(a, b) && crate::text::text_before(
            b,
            c,
        ) implies crate::text::text_before(a, c) by {
        crate::text::law_text_before_transitive(a, b, c);
    }
    assert forall|a: Seq<char>| !#[trigger] crate::text::text_before(a, a) by {
        crate::text::law_text_before_irreflexive(a);
    }
    assert forall|a: Seq<char>, b: Seq<char>|
        #![trigger crate::text::text_before(a, b)]
        !crate::text::text_before(a, b) && !crate::text::text_before(b, a) implies a == b by {
        crate::text::law_text_before_total(a, b);
    }
}

/// Every tag of a file has a field, and every field but the core ones is a tag of
/// a file.
pub proof fn law_every_tag_has_a_field(files: Seq<FileEntryModel>, name: Seq<char>)
    ensures
        other_tags(files).contains(name) <==> !core_tags().contains(name) && exists|i: int|
            0 <= i < files.len() && !lacks(#[trigger] files[i], name),
{
    let tags = files.map_values(file_tags());
    let all = flat(tags);
    let names = all.map_values(tag_name());
    let once = distinct(names);
    let others = chosen(once, beyond_core());
    let by_text = |a: Seq<char>, b: Seq<char>| <String as crate::ordering::Ranked>::precedes(a, b);
    law_distinct(names);
    law_chosen(once, beyond_core());
    law_in_order_contains(others, by_text);
    if other_tags(files).contains(name) {
        assert(others.contains(name));
        let k = choose|k: int| 0 <= k < others.len() && others[k] == name;
        assert(beyond_core()(others[k]) && once.contains(others[k]));
        assert(names.contains(name));
        let l = choose|l: int| 0 <= l < names.len() && names[l] == name;
        lemma_flat(tags, all[l]);
        let i = choose|i: int| 0 <= i < tags.len() && (#[trigger] tags[i]).contains(all[l]);
        let j = choose|j: int| 0 <= j < tags[i].len() && tags[i][j] == all[l];
        assert(files[i].tags[j].0 == name);
        assert(!lacks(files[i], name));
    }
    if !core_tags().contains(name) && exists|i: int|
        0 <= i < files.len() && !lacks(#[trigger] files[i], name) {
        let i = choose|i: int| 0 <= i < files.len() && !lacks(#[trigger] files[i], name);
        let j = choose|j: int|
            0 <= j < files[i].tags.len() && (#[trigger] files[i].tags[j]).0 == name;
        let t = files[i].tags[j];
        assert(tags[i] == files[i].tags);
        assert(tags[i].contains(t));
        lemma_flat(tags, t);
        let l = choose|l: int| 0 <= l < all.len() && all[l] == t;
        assert(names[l] == name);
        assert(once.contains(name));
        let k = choose|k: int| 0 <= k < once.len() && once[k] == name;
        assert(beyond_core()(once[k]));
        assert(others.contains(once[k]));
    }
}

proof fn lemma_flat(s: Seq<Seq<(Seq<char>, Seq<char>)>>, x: (Seq<char>, Seq<char>))
    ensures
        flat(s).contains(x) <==> exists|i: int| 0 <= i < s.len() && (#[trigger] s[i]).contains(x),
    decreases s.len(),
{
    if s.len() > 0 {
        let init = s.drop_last();
        lemma_flat(init, x);
        let a = flat(init);
        let b = s.last();
        if flat(s).contains(x) {
            let k = choose|k: int| 0 <= k < flat(s).len() && flat(s)[k] == x;
            if k < a.len() {
                assert(a[k] == x);
                assert(a.contains(x));
                let i = choose|i: int| 0 <= i < init.len() && (#[trigger] init[i]).contains(x);
                assert(s[i].contains(x));
            } else {
                assert(b[k - a.len()] == x);
                assert(s[s.len() - 1].contains(x));
            }
        }
        if exists|i: int| 0 <= i < s.len() && (#[trigger] s[i]).contains(x) {
            let i = choose|i: int| 0 <= i < s.len() && (#[trigger] s[i]).contains(x);
            if i < init.len() {
                assert(init[i].contains(x));
                let k = choose|k: int| 0 <= k < a.len() && a[k] == x;
                assert(flat(s)[k] == x);
            } else {
                let k = choose|k: int| 0 <= k < b.len() && b[k] == x;
                assert(flat(s)[a.len() + k] == x);
            }
        }
    }
}

/// The directories beside one are those that are not hidden, all of them.
pub proof fn law_hidden_directories_are_left_out(entries: Seq<(Seq<char>, bool)>, p: Seq<char>)
    ensures
        directories_in(entries).contains(p) <==> entries.contains((p, true)) && !(paths::name_in(
            p,
        ) is Some && paths::name_in(p)->0.len() > 0 && paths::name_in(p)->0[0] == '.'),
        siblings_of(p, entries) == (if paths::lies_in_directory(p) {
            directories_in(entries)
        } else {
            seq![p]
        }),
{
    let all = picked(entries, plain_directory(), entry_path());
    law_picked(entries, plain_directory(), entry_path());
    law_in_order_contains(all, paths::by_components());
    if all.contains(p) {
        let k = choose|k: int|
            0 <= k < entries.len() && plain_directory()(#[trigger] entries[k]) && entry_path()(
                entries[k],
            ) == p;
        assert(entries[k] == (p, true));
    }
    if entries.contains((p, true)) {
        let k = choose|k: int| 0 <= k < entries.len() && entries[k] == (p, true);
        assert(entry_path()(entries[k]) == p);
        if !(paths::name_in(p) is Some && paths::name_in(p)->0.len() > 0 && paths::name_in(p)->0[0]
            == '.') {
            assert(plain_directory()(entries[k]));
            assert(all.contains(p));
        }
    }
}

/// A change is listed for each field that was edited to another value, over all
/// the files, and for no other.
pub proof fn law_edited_fields_are_changes(m: DirectoryModel, c: DirectoryTagChangeModel)
    requires
        m.files.len() <= usize::MAX,
    ensures
        m.changes().contains(c) <==> c.affected_files == m.files.len() && c.field_name
            != "New Tag"@ && exists|i: int|
            0 <= i < m.aggregated_fields.len() && (#[trigger] m.aggregated_fields[i]).name
                == c.field_name && m.aggregated_fields[i].value == AggregatedValueModel::Edited(
                c.new_value,
            ) && (i < m.original_aggregated_fields.len() ==> m.original_aggregated_fields[i].value
                != m.aggregated_fields[i].value),
        m.has_changes() <==> m.aggregated_fields.len() != m.original_aggregated_fields.len()
            || exists|i: int|
            0 <= i < m.aggregated_fields.len() && (#[trigger] m.aggregated_fields[i]).name
                != "New Tag"@ && m.aggregated_fields[i].value
                != m.original_aggregated_fields[i].value,
{
    lemma_changes_of_first(m, m.aggregated_fields.len(), c);
    if m.has_changes() && m.aggregated_fields.len() == m.original_aggregated_fields.len() {
        let i = choose|i: int| 0 <= i < m.aggregated_fields.len() && #[trigger] m.differs_at(i);
        assert(m.aggregated_fields[i].name != "New Tag"@);
    }
    if exists|i: int|
        0 <= i < m.aggregated_fields.len() && (#[trigger] m.aggregated_fields[i]).name
            != "New Tag"@ && m.aggregated_fields[i].value != m.original_aggregated_fields[i].value {
        let i = choose|i: int|
            0 <= i < m.aggregated_fields.len() && (#[trigger] m.aggregated_fields[i]).name
                != "New Tag"@ && m.aggregated_fields[i].value
                != m.original_aggregated_fields[i].value;
        assert(m.differs_at(i));
    }
}

proof fn lemma_changes_of_first(m: DirectoryModel, n: nat, c: DirectoryTagChangeModel)
    requires
        n <= m.aggregated_fields.len(),
        m.files.len() <= usize::MAX,
    ensures
        m.changes_of_first(n).contains(c) <==> c.affected_files == m.files.len() && c.field_name
            != "New Tag"@ && exists|i: int|
            0 <= i < n && (#[trigger] m.aggregated_fields[i]).name == c.field_name
                && m.aggregated_fields[i].value == AggregatedValueModel::Edited(c.new_value) && (i
                < m.original_aggregated_fields.len() ==> m.original_aggregated_fields[i].value
                != m.aggregated_fields[i].value),
    decreases n,
{
    if n > 0 {
        let k = (n - 1) as nat;
        lemma_changes_of_first(m, k, c);
        let before = m.changes_of_first(k);
        let after = m.changes_of_first(n);
        let f = m.aggregated_fields[k as int];
        if m.changed_at(k as int) {
            let last = after.last();
            assert(after == before.push(last));
            if after.contains(c) {
                let j = choose|j: int| 0 <= j < after.len() && after[j] == c;
                if j < before.len() {
                    assert(before[j] == c);
                    assert(before.contains(c));
                } else {
                    assert(f.name == c.field_name);
                }
            }
            if before.contains(c) {
                let j = choose|j: int| 0 <= j < before.len() && before[j] == c;
                assert(after[j] == c);
            }
            if c == last {
                assert(after[after.len() - 1] == c);
            }
        } else {
            assert(after == before);
        }
    }
}

/// Whether the fields of a directory can be edited, one of them in hand.
pub open spec fn at_field(m: DirectoryModel) -> bool {
    &&& m.gathering_state is None
    &&& m.focus == DirectoryTagEditorFocus::TagFields
    &&& m.current_field_idx < m.aggregated_fields.len()
}

/// The field in hand.
pub open spec fn here(m: DirectoryModel) -> AggregatedTagFieldModel {
    m.aggregated_fields[m.current_field_idx as int]
}

/// Whether two states have the same fields but for the one in hand.
pub open spec fn others_stay(a: DirectoryModel, b: DirectoryModel) -> bool {
    &&& a.aggregated_fields.len() == b.aggregated_fields.len()
    &&& forall|i: int|
        0 <= i < b.aggregated_fields.len() && i != b.current_field_idx
            ==> #[trigger] a.aggregated_fields[i] == b.aggregated_fields[i]
    &&& a.files == b.files
    &&& a.original_aggregated_fields == b.original_aggregated_fields
}

/// Enter on a field begins to edit its value from what it holds, and when it is
/// edited writes it there.
pub proof fn law_enter_edits_and_writes(m: DirectoryModel, shift: bool, control: bool)
    requires
        at_field(m),
        here(m).name != "New Tag"@,
        here(m).value is Consistent || here(m).value is Edited,
    ensures
        ({
            let n = m.key_step(KeyEvent { code: KeyCode::Enter, shift, control }).0;
            &&& others_stay(n, m)
            &&& n.current_field_idx == m.current_field_idx
            &&& m.field_edit_state == FieldEditState::NonEditable ==> n.field_edit_state
                == FieldEditState::EditingValue && here(n) == here(m)
            &&& m.field_edit_state == FieldEditState::NonEditable && here(m).value is Consistent
                ==> n.value_buffer == here(m).value->Consistent_0
            &&& m.field_edit_state == FieldEditState::NonEditable && here(m).value is Edited
                ==> n.value_buffer == here(m).value->Edited_0
            &&& m.field_edit_state == FieldEditState::EditingValue ==> n.field_edit_state
                == FieldEditState::NonEditable && here(n) == AggregatedTagFieldModel {
                value: AggregatedValueModel::Edited(m.value_buffer),
                ..here(m)
            }
        }),
{
}

/// Enter on the last line puts a new tag before it and edits its value.
pub proof fn law_new_tag_goes_before_the_last(m: DirectoryModel, shift: bool, control: bool)
    requires
        at_field(m),
        here(m).name == "New Tag"@,
        m.aggregated_fields.len() <= usize::MAX,
    ensures
        ({
            let n = m.key_step(KeyEvent { code: KeyCode::Enter, shift, control }).0;
            let at = m.aggregated_fields.len() - 1;
            &&& n.aggregated_fields.len() == m.aggregated_fields.len() + 1
            &&& n.aggregated_fields.take(at) == m.aggregated_fields.take(at)
            &&& n.aggregated_fields.last() == m.aggregated_fields.last()
            &&& n.aggregated_fields[at].name == "new_tag"@
            &&& n.aggregated_fields[at].value == AggregatedValueModel::Edited(Seq::empty())
            &&& n.current_field_idx == at
            &&& n.field_edit_state == FieldEditState::EditingValue && n.value_buffer.len() == 0
        }),
{
    let n = m.key_step(KeyEvent { code: KeyCode::Enter, shift, control }).0;
    let at = m.aggregated_fields.len() - 1;
    assert(n.aggregated_fields.take(at) =~= m.aggregated_fields.take(at));
}

/// What is typed goes to the end of the value, and Backspace takes it from there;
/// Ctrl+U empties it, and where nothing is edited the field in hand.
pub proof fn law_typing_edits_the_value(m: DirectoryModel, c: char, shift: bool)
    requires
        at_field(m),
    ensures
        ({
            let typed = m.key_step(
                KeyEvent { code: KeyCode::Char(c), shift, control: false },
            ).0;
            let back = m.key_step(
                KeyEvent { code: KeyCode::Backspace, shift, control: false },
            ).0;
            let none = m.key_step(
                KeyEvent { code: KeyCode::Char('u'), shift, control: true },
            ).0;
            let editing = m.field_edit_state == FieldEditState::EditingValue;
            &&& editing ==> typed.value_buffer == m.value_buffer + seq![c]
            &&& editing && m.value_buffer.len() > 0 ==> back.value_buffer
                + seq![m.value_buffer.last()] == m.value_buffer
            &&& editing ==> none.value_buffer.len() == 0 && none.aggregated_fields
                == m.aggregated_fields
            &&& !editing ==> typed == m && back == m && others_stay(none, m) && here(none)
                == AggregatedTagFieldModel {
                value: AggregatedValueModel::Edited(Seq::empty()),
                ..here(m)
            }
            &&& typed.aggregated_fields == m.aggregated_fields && back.aggregated_fields
                == m.aggregated_fields
        }),
{
    assert(m.value_buffer.push(c) =~= m.value_buffer + seq![c]);
    if m.value_buffer.len() > 0 {
        assert(m.value_buffer.drop_last() + seq![m.value_buffer.last()] =~= m.value_buffer);
    }
}

/// Up and down go field by field and not past the ends; a value that is edited is
/// written first.
pub proof fn law_arrows_go_field_by_field(m: DirectoryModel, shift: bool, control: bool)
    requires
        at_field(m),
        m.aggregated_fields.len() <= usize::MAX,
    ensures
        ({
            let up = m.key_step(KeyEvent { code: KeyCode::Up, shift, control }).0;
            let down = m.key_step(KeyEvent { code: KeyCode::Down, shift, control }).0;
            let editing = m.field_edit_state == FieldEditState::EditingValue;
            let at = m.current_field_idx as int;
            &&& up.current_field_idx == (if at == 0 {
                0
            } else {
                at - 1
            })
            &&& down.current_field_idx == (if at + 1 == m.aggregated_fields.len() {
                at
            } else {
                at + 1
            })
            &&& others_stay(up, m) && others_stay(down, m)
            &&& editing ==> up.aggregated_fields[at] == AggregatedTagFieldModel {
                value: AggregatedValueModel::Edited(m.value_buffer),
                ..here(m)
            } && down.aggregated_fields[at] == up.aggregated_fields[at]
            &&& !editing ==> up.aggregated_fields[at] == here(m) && down.aggregated_fields[at]
                == here(m)
        }),
{
}

/// Esc ends an edit without writing it, and else leaves; right goes to the
/// buttons, and left or Esc back from them.
pub proof fn law_panes_are_gone_between(m: DirectoryModel, shift: bool, control: bool)
    requires
        m.gathering_state is None,
    ensures
        ({
            let esc = m.key_step(KeyEvent { code: KeyCode::Esc, shift, control });
            let right = m.key_step(KeyEvent { code: KeyCode::Right, shift, control });
            let left = m.key_step(KeyEvent { code: KeyCode::Left, shift, control });
            let fields = m.focus == DirectoryTagEditorFocus::TagFields;
            let browsing = m.field_edit_state == FieldEditState::NonEditable;
            &&& fields && browsing ==> esc == (m, DirectoryTagEditorActionModel::Exit)
                && right.0.focus == DirectoryTagEditorFocus::ActionPane
            &&& fields && !browsing ==> esc.1 is Nothing && esc.0.field_edit_state
                == FieldEditState::NonEditable && right.0.focus == m.focus
            &&& !fields ==> esc.0.focus == DirectoryTagEditorFocus::TagFields && esc.1 is Nothing
                && left.0.focus == DirectoryTagEditorFocus::TagFields
            &&& fields ==> left.0.focus == m.focus
        }),
{
}

/// Enter at the buttons shows what would be changed, where anything would; Tab
/// goes to the directory beside this one, and asks first where there are changes.
pub proof fn law_saving_and_switching(m: DirectoryModel, key: KeyEvent)
    requires
        m.gathering_state is None,
    ensures
        ({
            let n = m.key_step(key);
            let fields = m.focus == DirectoryTagEditorFocus::TagFields;
            let next = key.code == KeyCode::Tab && !key.shift;
            let prev = key.code == KeyCode::BackTab || (key.code == KeyCode::Tab && key.shift);
            &&& !fields && key.code == KeyCode::Enter && m.changes().len() > 0 ==> n.1
                == DirectoryTagEditorActionModel::ShowModal(
                DirectoryTagEditorModal::ChangePreview { scroll_offset: 0, save_and_next: false },
            )
            &&& !fields && key.code == KeyCode::Enter && m.changes().len() == 0
                ==> n.1 is StatusMessage
            &&& fields && next && m.has_changes() ==> n.1
                == DirectoryTagEditorActionModel::ShowModal(
                DirectoryTagEditorModal::UnsavedChanges { going_next: true },
            )
            &&& fields && prev && m.has_changes() ==> n.1
                == DirectoryTagEditorActionModel::ShowModal(
                DirectoryTagEditorModal::UnsavedChanges { going_next: false },
            )
            &&& fields && next && !m.has_changes() ==> n.1
                == DirectoryTagEditorActionModel::SwitchDirectory(true)
            &&& fields && prev && !m.has_changes() ==> n.1
                == DirectoryTagEditorActionModel::SwitchDirectory(false)
            &&& next || prev ==> n.0 == m
        }),
{
}

/// The directory beside this one is the next or the one before in their list, and
/// there is none past its ends.
pub proof fn law_sibling_is_beside(m: DirectoryModel)
    requires
        m.current_sibling_idx <= m.sibling_directories.len(),
    ensures
        m.sibling(true) is Some <==> m.current_sibling_idx + 1 < m.sibling_directories.len(),
        m.sibling(false) is Some <==> m.current_sibling_idx > 0,
        m.sibling(true) is Some ==> m.sibling(true)->0 == m.sibling_directories[m.current_sibling_idx
            + 1],
        m.sibling(false) is Some ==> m.sibling(false)->0
            == m.sibling_directories[m.current_sibling_idx - 1],
{
}

/// What the gathering says is kept: how many files there are, which one it is at,
/// and each file with its tags, behind those before it.
pub proof fn law_gathering_is_told(m: DirectoryModel, message: GatheringMessageModel)
    requires
        m.gathering_state is Some,
    ensures
        ({
            let n = m.told(message);
            &&& message is TotalFiles ==> n.gathering_state->0.total_files
                == message->TotalFiles_0 && n.gathering_state->0.processed_files
                == m.gathering_state->0.processed_files && n.files == m.files
            &&& message is Processing ==> n.gathering_state->0.processed_files
                == message->Processing_0 && n.gathering_state->0.current_file == Some(
                message->Processing_1,
            ) && n.gathering_state->0.total_files == m.gathering_state->0.total_files && n.files
                == m.files
            &&& message is FileProcessed ==> n.files.len() == m.files.len() + 1
                && n.files.drop_last() == m.files && n.files.last().path
                == message->FileProcessed_path && n.files.last().tags == message->FileProcessed_tags
                && n.gathering_state == m.gathering_state
            &&& message is FileProcessed && paths::name_in(message->FileProcessed_path) is Some
                ==> n.files.last().filename == paths::name_in(message->FileProcessed_path)->0
            &&& message is FileError ==> n == m
            &&& message is Complete <==> n.gathering_state is None
        }),
{
    if message is FileProcessed {
        assert(m.told(message).files.drop_last() =~= m.files);
    }
}

} // verus!
