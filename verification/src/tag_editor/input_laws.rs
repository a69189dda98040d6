//! What editing promises: what each input does to the fields, the buffers and the
//! modals, and what it asks for.

use vstd::prelude::*;

use crate::corpus::TagOpModel;
use crate::input::InputAction;
use crate::lists::{chosen, distinct, law_chosen, law_distinct, law_picked, picked};
use crate::ordering::{law_in_order, law_in_order_contains};
use crate::tag_editor::model::{field_value, key_of, loud, loud_tag, not_loud, op_inode, op_tag, touched_inodes, touched_tags, valued, values_step, EditorModel};
use crate::tag_editor::types::{AggregatedTagFieldModel, AggregatedValueModel, FieldEditState, NavigationDirection, StageChangesButton, TagEditorButton, TagEditorMode, TagFieldModel, UnifiedTagEditorActionModel, UnifiedTagEditorFocus, UnifiedTagEditorModalModel, UnsavedChangesButton};
use crate::text::uppercase;

verus! {

// ---------------------------------------------------------------------------
// Fields
// ---------------------------------------------------------------------------

/// Whether the fields of one file are in hand, with no modal open.
pub open spec fn at_fields(m: EditorModel) -> bool {
    m.modal is None && m.focus == UnifiedTagEditorFocus::TagFields
}

/// Whether a field of one file is in hand.
pub open spec fn at_a_field(m: EditorModel) -> bool {
    &&& at_fields(m)
    &&& m.mode == TagEditorMode::Individual
    &&& m.current_item_idx < m.tag_fields.len()
    &&& m.current_field_idx < m.tag_fields[m.current_item_idx as int].len()
}

/// The field in hand.
pub open spec fn field(m: EditorModel) -> TagFieldModel {
    m.tag_fields[m.current_item_idx as int][m.current_field_idx as int]
}

/// Whether nothing but the field in hand differs between two sets of fields.
pub open spec fn but_one(a: EditorModel, b: EditorModel) -> bool {
    &&& a.tag_fields.len() == b.tag_fields.len()
    &&& forall|i: int|
        0 <= i < a.tag_fields.len() && i != b.current_item_idx ==> #[trigger] a.tag_fields[i]
            == b.tag_fields[i]
    &&& a.tag_fields[b.current_item_idx as int].len()
        == b.tag_fields[b.current_item_idx as int].len()
    &&& forall|j: int|
        0 <= j < b.tag_fields[b.current_item_idx as int].len() && j != b.current_field_idx
            ==> #[trigger] a.tag_fields[b.current_item_idx as int][j]
            == b.tag_fields[b.current_item_idx as int][j]
}

/// What is typed goes to the end of the name or the value that is edited, and
/// Backspace takes it from there; the fields themselves stay.
pub proof fn law_typing_edits_the_buffer(m: EditorModel, c: char)
    requires
        at_fields(m),
        m.field_edit_state != FieldEditState::NonEditable,
    ensures
        ({
            let typed = m.step(InputAction::Char(c)).0;
            let back = m.step(InputAction::Backspace).0;
            let none = m.step(InputAction::KillToStart).0;
            let name = m.field_edit_state == FieldEditState::EditingName;
            &&& typed.tag_fields == m.tag_fields && back.tag_fields == m.tag_fields
                && none.tag_fields == m.tag_fields
            &&& name ==> typed.name_buffer == m.name_buffer + seq![c] && typed.value_buffer
                == m.value_buffer && back.value_buffer == m.value_buffer && none.value_buffer
                == m.value_buffer && none.name_buffer.len() == 0
            &&& name && m.name_buffer.len() > 0 ==> back.name_buffer.len() == m.name_buffer.len()
                - 1 && back.name_buffer + seq![m.name_buffer.last()] == m.name_buffer
            &&& !name ==> typed.value_buffer == m.value_buffer + seq![c] && typed.name_buffer
                == m.name_buffer && back.name_buffer == m.name_buffer && none.name_buffer
                == m.name_buffer && none.value_buffer.len() == 0
            &&& !name && m.value_buffer.len() > 0 ==> back.value_buffer.len() == m.value_buffer.len()
                - 1 && back.value_buffer + seq![m.value_buffer.last()] == m.value_buffer
            &&& typed.field_edit_state == m.field_edit_state && back.field_edit_state
                == m.field_edit_state
        }),
{
    if m.name_buffer.len() > 0 {
        assert(m.name_buffer.drop_last() + seq![m.name_buffer.last()] =~= m.name_buffer);
    }
    if m.value_buffer.len() > 0 {
        assert(m.value_buffer.drop_last() + seq![m.value_buffer.last()] =~= m.value_buffer);
    }
    assert(m.name_buffer.push(c) =~= m.name_buffer + seq![c]);
    assert(m.value_buffer.push(c) =~= m.value_buffer + seq![c]);
}

/// Enter writes an edited value into the field in hand and into no other.
pub proof fn law_enter_writes_the_value(m: EditorModel)
    requires
        at_a_field(m),
        m.field_edit_state == FieldEditState::EditingValue,
        field(m).name != "New Tag"@,
    ensures
        ({
            let n = m.step(InputAction::Confirm).0;
            &&& n.field_edit_state == FieldEditState::NonEditable
            &&& n.current_field_idx == m.current_field_idx && n.current_item_idx
                == m.current_item_idx
            &&& but_one(n, m)
            &&& field(n) == TagFieldModel { value: m.value_buffer, ..field(m) }
        }),
{
}

/// Enter gives an edited name to the field in hand and to those of the same name
/// in its file; their values stay, and so does every other field.
pub proof fn law_enter_writes_the_name(m: EditorModel, j: int)
    requires
        at_a_field(m),
        m.field_edit_state == FieldEditState::EditingName,
        field(m).name != "New Tag"@,
        0 <= j < m.tag_fields[m.current_item_idx as int].len(),
    ensures
        ({
            let n = m.step(InputAction::Confirm).0;
            let before = m.tag_fields[m.current_item_idx as int][j];
            let after = n.tag_fields[m.current_item_idx as int][j];
            &&& n.field_edit_state == FieldEditState::NonEditable
            &&& n.tag_fields.len() == m.tag_fields.len()
            &&& n.tag_fields[m.current_item_idx as int].len()
                == m.tag_fields[m.current_item_idx as int].len()
            &&& forall|i: int|
                0 <= i < m.tag_fields.len() && i != m.current_item_idx ==> #[trigger] n.tag_fields[i]
                    == m.tag_fields[i]
            &&& after.value == before.value && after.editable == before.editable && after.deleted
                == before.deleted
            &&& uppercase(before.name) == uppercase(field(m).name) ==> after.name == m.name_buffer
            &&& uppercase(before.name) != uppercase(field(m).name) ==> after.name == before.name
            &&& field(n).name == m.name_buffer
        }),
{
}

/// Enter on a field begins to edit its name or, at the values, its value, from
/// what it holds; a field of several values opens them all, in the order they are
/// in.
pub proof fn law_enter_begins_to_edit(m: EditorModel)
    requires
        at_a_field(m),
        m.field_edit_state == FieldEditState::NonEditable,
        field(m).name != "New Tag"@,
    ensures
        ({
            let n = m.step(InputAction::Confirm).0;
            let fields = m.tag_fields[m.current_item_idx as int];
            let several = exists|j: int|
                0 <= j < fields.len() && j != m.current_field_idx && (#[trigger] fields[j]).name
                    != "New Tag"@ && uppercase(fields[j].name) == uppercase(field(m).name);
            &&& n.tag_fields == m.tag_fields
            &&& !m.focus_on_value ==> n.field_edit_state == FieldEditState::EditingName
            &&& m.focus_on_value && !several ==> n.field_edit_state == FieldEditState::EditingValue
            &&& !(m.focus_on_value && several) ==> n.modal is None && n.name_buffer == field(m).name
                && n.value_buffer == field(m).value
            &&& m.focus_on_value && several ==> n.modal is Some && n.modal->0 is MultiValueEditor
                && n.modal->0->MultiValueEditor_field_idx == m.current_field_idx
                && n.modal->0->MultiValueEditor_current_value_idx == 0
                && !n.modal->0->MultiValueEditor_editing && n.field_edit_state
                == FieldEditState::NonEditable
        }),
{
    let fields = m.tag_fields[m.current_item_idx as int];
    let p = loud_tag(uppercase(field(m).name));
    crate::lists::law_tally(fields, p);
    let k = m.current_field_idx as int;
    assert(p(fields[k]));
    lemma_several(fields, p, k);
    let several = exists|j: int|
        0 <= j < fields.len() && j != m.current_field_idx && (#[trigger] fields[j]).name
            != "New Tag"@ && uppercase(fields[j].name) == uppercase(field(m).name);
    if chosen(fields, p).len() > 1 {
        let j = choose|j: int| 0 <= j < fields.len() && j != k && p(#[trigger] fields[j]);
        assert(fields[j].name != "New Tag"@);
        assert(several);
    }
    if several {
        let j = choose|j: int|
            0 <= j < fields.len() && j != m.current_field_idx && (#[trigger] fields[j]).name
                != "New Tag"@ && uppercase(fields[j].name) == uppercase(field(m).name);
        assert(p(fields[j]));
    }
}

proof fn lemma_several(s: Seq<TagFieldModel>, p: spec_fn(TagFieldModel) -> bool, k: int)
    requires
        0 <= k < s.len(),
        p(s[k]),
    ensures
        chosen(s, p).len() >= 1,
        chosen(s, p).len() > 1 <==> exists|j: int| 0 <= j < s.len() && j != k && p(#[trigger] s[j]),
    decreases s.len(),
{
    let init = s.drop_last();
    let last = s.len() - 1;
    if k == last {
        lemma_none_or_some(init, p);
        if chosen(s, p).len() > 1 {
            let j = choose|j: int| 0 <= j < init.len() && p(#[trigger] init[j]);
            assert(p(s[j]));
        }
        if exists|j: int| 0 <= j < s.len() && j != k && p(#[trigger] s[j]) {
            let j = choose|j: int| 0 <= j < s.len() && j != k && p(#[trigger] s[j]);
            assert(p(init[j]));
        }
    } else {
        assert(init[k] == s[k]);
        lemma_several(init, p, k);
        if chosen(init, p).len() > 1 {
            let j = choose|j: int| 0 <= j < init.len() && j != k && p(#[trigger] init[j]);
            assert(p(s[j]));
        }
        if p(s[last]) {
            assert(chosen(s, p).len() == chosen(init, p).len() + 1);
        } else if exists|j: int| 0 <= j < s.len() && j != k && p(#[trigger] s[j]) {
            let j = choose|j: int| 0 <= j < s.len() && j != k && p(#[trigger] s[j]);
            assert(p(init[j]));
        }
    }
}

proof fn lemma_none_or_some(s: Seq<TagFieldModel>, p: spec_fn(TagFieldModel) -> bool)
    ensures
        chosen(s, p).len() > 0 <==> exists|j: int| 0 <= j < s.len() && p(#[trigger] s[j]),
{
    law_chosen(s, p);
    if chosen(s, p).len() > 0 {
        let x = chosen(s, p)[0];
        assert(p(x) && s.contains(x));
        let j = choose|j: int| 0 <= j < s.len() && s[j] == x;
        assert(p(s[j]));
    }
    if exists|j: int| 0 <= j < s.len() && p(#[trigger] s[j]) {
        let j = choose|j: int| 0 <= j < s.len() && p(#[trigger] s[j]);
        assert(chosen(s, p).contains(s[j]));
    }
}

/// The values that are opened are those of the fields of that name in the file,
/// all of them.
pub proof fn law_all_values_are_opened(m: EditorModel, v: Seq<char>)
    requires
        at_a_field(m),
        m.step(InputAction::Confirm).0.modal is Some,
    ensures
        m.step(InputAction::Confirm).0.modal->0->MultiValueEditor_values.contains(v) <==> exists|
            j: int,
        |
            0 <= j < m.tag_fields[m.current_item_idx as int].len() && uppercase(
                (#[trigger] m.tag_fields[m.current_item_idx as int][j]).name,
            ) == uppercase(field(m).name) && m.tag_fields[m.current_item_idx as int][j].value == v,
{
    let fields = m.tag_fields[m.current_item_idx as int];
    let p = loud(uppercase(field(m).name));
    law_picked(fields, p, field_value());
    let values = picked(fields, p, field_value());
    if values.contains(v) {
        let j = choose|j: int|
            0 <= j < fields.len() && p(#[trigger] fields[j]) && field_value()(fields[j]) == v;
        assert(uppercase(fields[j].name) == uppercase(field(m).name));
    }
    if exists|j: int|
        0 <= j < fields.len() && uppercase((#[trigger] fields[j]).name) == uppercase(field(m).name)
            && fields[j].value == v {
        let j = choose|j: int|
            0 <= j < fields.len() && uppercase((#[trigger] fields[j]).name) == uppercase(
                field(m).name,
            ) && fields[j].value == v;
        assert(p(fields[j]) && field_value()(fields[j]) == v);
    }
}

/// Up and down go field by field, not past the ends, and load the field that they
/// come to; while browsing they change no field.
pub proof fn law_fields_are_walked(m: EditorModel)
    requires
        at_a_field(m),
        m.field_edit_state == FieldEditState::NonEditable,
        m.tag_fields[m.current_item_idx as int].len() <= usize::MAX,
    ensures
        ({
            let up = m.step(InputAction::NavUp).0;
            let down = m.step(InputAction::NavDown).0;
            let count = m.tag_fields[m.current_item_idx as int].len();
            &&& up.tag_fields == m.tag_fields && down.tag_fields == m.tag_fields
            &&& up.current_field_idx == (if m.current_field_idx == 0 {
                0int
            } else {
                m.current_field_idx - 1
            })
            &&& down.current_field_idx == (if m.current_field_idx + 1 == count {
                m.current_field_idx as int
            } else {
                m.current_field_idx + 1
            })
            &&& up.name_buffer == field(up).name && up.value_buffer == field(up).value
            &&& down.name_buffer == field(down).name && down.value_buffer == field(down).value
            &&& up.current_item_idx == m.current_item_idx && down.current_item_idx
                == m.current_item_idx
        }),
{
}

/// Going to another field while a value is edited writes the value first.
pub proof fn law_walking_writes_the_value(m: EditorModel)
    requires
        at_a_field(m),
        m.field_edit_state == FieldEditState::EditingValue,
    ensures
        but_one(m.step(InputAction::NavUp).0, m),
        but_one(m.step(InputAction::NavDown).0, m),
        m.step(InputAction::NavUp).0.tag_fields[m.current_item_idx as int][m.current_field_idx as int]
            == (TagFieldModel { value: m.value_buffer, ..field(m) }),
        m.step(
            InputAction::NavDown,
        ).0.tag_fields[m.current_item_idx as int][m.current_field_idx as int] == (TagFieldModel {
            value: m.value_buffer,
            ..field(m)
        }),
{
}

/// Delete and Backspace mark the field in hand for deletion, or take the mark
/// back; the line that creates a tag and fields that are not edited get none.
pub proof fn law_delete_marks_the_field(m: EditorModel, action: InputAction)
    requires
        at_a_field(m),
        m.field_edit_state == FieldEditState::NonEditable,
        action is Delete || action is Backspace,
    ensures
        ({
            let n = m.step(action).0;
            &&& but_one(n, m)
            &&& field(m).editable && field(m).name != "New Tag"@ ==> field(n) == TagFieldModel {
                deleted: !field(m).deleted,
                ..field(m)
            }
            &&& !(field(m).editable && field(m).name != "New Tag"@) ==> field(n) == field(m)
            &&& n.current_field_idx == m.current_field_idx
        }),
{
}

/// Ctrl+U on a field that is not edited empties its value and no other.
pub proof fn law_value_is_emptied(m: EditorModel)
    requires
        at_a_field(m),
        m.field_edit_state == FieldEditState::NonEditable,
    ensures
        but_one(m.step(InputAction::KillToStart).0, m),
        field(m.step(InputAction::KillToStart).0).value.len() == 0,
        field(m.step(InputAction::KillToStart).0).name == field(m).name,
        field(m.step(InputAction::KillToStart).0).deleted == field(m).deleted,
{
}

/// A new tag goes before the last line of the file in hand, without a value, and
/// its name is edited; what stood there before keeps its order.
pub proof fn law_new_tag_goes_before_the_last_line(m: EditorModel, action: InputAction)
    requires
        at_a_field(m),
        m.field_edit_state == FieldEditState::NonEditable,
        action == InputAction::Char('n') || (action is Confirm && field(m).name == "New Tag"@),
        m.tag_fields[m.current_item_idx as int].len() <= usize::MAX,
    ensures
        ({
            let n = m.step(action).0;
            let before = m.tag_fields[m.current_item_idx as int];
            let after = n.tag_fields[m.current_item_idx as int];
            let at = before.len() - 1;
            &&& n.tag_fields.len() == m.tag_fields.len()
            &&& forall|i: int|
                0 <= i < m.tag_fields.len() && i != m.current_item_idx ==> #[trigger] n.tag_fields[i]
                    == m.tag_fields[i]
            &&& after.len() == before.len() + 1
            &&& after.take(at) == before.take(at)
            &&& after.last() == before.last()
            &&& after[at] == TagFieldModel {
                name: "new_tag"@,
                value: Seq::empty(),
                editable: true,
                deleted: false,
            }
            &&& n.current_field_idx == at
            &&& n.field_edit_state == FieldEditState::EditingName
            &&& n.name_buffer == "new_tag"@ && n.value_buffer.len() == 0 && !n.focus_on_value
        }),
{
    let n = m.step(action).0;
    let before = m.tag_fields[m.current_item_idx as int];
    let after = n.tag_fields[m.current_item_idx as int];
    assert(after.take(before.len() - 1) =~= before.take(before.len() - 1));
}

/// Left goes to the names, right to the values and from there to the buttons;
/// while a field is edited they go nowhere.
pub proof fn law_names_and_values_are_gone_between(m: EditorModel)
    requires
        at_fields(m),
    ensures
        ({
            let left = m.step(InputAction::NavLeft).0;
            let right = m.step(InputAction::NavRight).0;
            let browsing = m.field_edit_state == FieldEditState::NonEditable;
            &&& browsing ==> !left.focus_on_value && left.focus == m.focus
            &&& browsing && !m.focus_on_value ==> right.focus_on_value && right.focus == m.focus
            &&& browsing && m.focus_on_value ==> right.focus == UnifiedTagEditorFocus::Actions
            &&& !browsing ==> left == m && right == m
            &&& left.tag_fields == m.tag_fields && right.tag_fields == m.tag_fields
        }),
{
}

/// Esc ends an edit without writing it; while browsing it asks about changes, and
/// leaves where there are none.
pub proof fn law_escape_leaves(m: EditorModel)
    requires
        at_fields(m),
    ensures
        ({
            let n = m.step(InputAction::Cancel);
            let browsing = m.field_edit_state == FieldEditState::NonEditable;
            &&& n.0.tag_fields == m.tag_fields && n.0.aggregated_fields == m.aggregated_fields
            &&& !browsing ==> n.0.field_edit_state == FieldEditState::NonEditable && n.1 is Nothing
                && n.0.modal is None
            &&& browsing && m.has_changes() ==> n.0.modal == Some(
                UnifiedTagEditorModalModel::UnsavedChanges {
                    selected_button: UnsavedChangesButton::KeepEditing,
                },
            ) && n.1 is Nothing
            &&& browsing && !m.has_changes() && m.launch_mode is Embedded ==> n.1 is CloseEmbedded
            &&& browsing && !m.has_changes() && m.launch_mode is Standalone
                ==> n.1 is DiscardTransaction
        }),
{
}

// ---------------------------------------------------------------------------
// Many files as one
// ---------------------------------------------------------------------------

/// Whether a line of many files is in hand.
pub open spec fn at_a_line(m: EditorModel) -> bool {
    &&& at_fields(m)
    &&& m.mode == TagEditorMode::Aggregated
    &&& m.aggregated_fields is Some
    &&& m.current_field_idx < m.aggregated_fields->0.len()
}

/// The line in hand.
pub open spec fn line_in_hand(m: EditorModel) -> AggregatedTagFieldModel {
    m.aggregated_fields->0[m.current_field_idx as int]
}

/// Enter on a line of many files: values that differ are confirmed first, then
/// edited; what was edited is written on that line and on no other.
pub proof fn law_enter_on_a_line(m: EditorModel)
    requires
        at_a_line(m),
    ensures
        ({
            let n = m.step(InputAction::Confirm).0;
            let browsing = m.field_edit_state == FieldEditState::NonEditable;
            let line = line_in_hand(m);
            &&& n.tag_fields == m.tag_fields
            &&& n.current_field_idx == m.current_field_idx
            &&& n.aggregated_fields is Some
            &&& n.aggregated_fields->0.len() == m.aggregated_fields->0.len()
            &&& forall|i: int|
                0 <= i < m.aggregated_fields->0.len() && i != m.current_field_idx
                    ==> #[trigger] n.aggregated_fields->0[i] == m.aggregated_fields->0[i]
            &&& m.field_edit_state == FieldEditState::EditingValue ==> line_in_hand(n)
                == AggregatedTagFieldModel {
                value: AggregatedValueModel::Edited(m.value_buffer),
                ..line
            } && n.field_edit_state == FieldEditState::NonEditable
            &&& m.field_edit_state == FieldEditState::EditingName ==> line_in_hand(n)
                == AggregatedTagFieldModel { name: m.name_buffer, ..line } && n.field_edit_state
                == FieldEditState::NonEditable
            &&& browsing && !m.focus_on_value ==> n.field_edit_state == FieldEditState::EditingName
                && n.name_buffer == line.name
            &&& browsing && m.focus_on_value && line.value is Various ==> n.field_edit_state
                == FieldEditState::NonEditable && line_in_hand(n) == AggregatedTagFieldModel {
                value: AggregatedValueModel::VariousConfirming,
                ..line
            }
            &&& browsing && m.focus_on_value && !(line.value is Various) ==> n.field_edit_state
                == FieldEditState::EditingValue && line_in_hand(n) == line
            &&& browsing && m.focus_on_value && line.value is VariousConfirming
                ==> n.value_buffer.len() == 0
            &&& browsing && m.focus_on_value && line.value is Consistent ==> n.value_buffer
                == line.value->Consistent_0
            &&& browsing && m.focus_on_value && line.value is Edited ==> n.value_buffer
                == line.value->Edited_0
        }),
{
}

// ---------------------------------------------------------------------------
// Modals
// ---------------------------------------------------------------------------

/// The modal on unsaved changes: keeping on editing changes nothing, discarding
/// gives the file in hand back as it was, and the arrows go to the other button.
pub proof fn law_unsaved_changes_are_answered(m: EditorModel, selected: UnsavedChangesButton)
    requires
        m.modal == Some(UnifiedTagEditorModalModel::UnsavedChanges { selected_button: selected }),
        m.current_item_idx < m.tag_fields.len(),
        m.tag_fields.len() == m.original_tag_fields.len(),
    ensures
        ({
            let n = m.step(InputAction::Confirm);
            let keep = selected == UnsavedChangesButton::KeepEditing;
            let here = m.current_item_idx as int;
            &&& n.0.modal is None
            &&& keep ==> n.0.tag_fields == m.tag_fields && n.1 is CloseModal
            &&& !keep ==> n.0.tag_fields[here] == m.original_tag_fields[here]
                && n.0.tag_fields.len() == m.tag_fields.len() && forall|i: int|
                0 <= i < m.tag_fields.len() && i != here ==> #[trigger] n.0.tag_fields[i]
                    == m.tag_fields[i]
            &&& !keep && m.launch_mode is Embedded ==> n.1 is CloseEmbedded
            &&& !keep && m.launch_mode is Standalone ==> n.1 is DiscardTransaction
            &&& forall|action: InputAction|
                action is NavLeft || action is NavRight || action is CycleNext ==> (
                #[trigger] m.step(action)).0.modal == Some(
                    UnifiedTagEditorModalModel::UnsavedChanges {
                        selected_button: if keep {
                            UnsavedChangesButton::DiscardAndProceed
                        } else {
                            UnsavedChangesButton::KeepEditing
                        },
                    },
                ) && m.step(action).0.tag_fields == m.tag_fields
        }),
{
}

/// The modal on staging: Yes stages what was changed and goes the way that was
/// asked for, No goes without staging, Cancel stays. None of them changes a field.
pub proof fn law_staging_is_answered(
    m: EditorModel,
    direction: NavigationDirection,
    selected: StageChangesButton,
)
    requires
        m.modal == Some(
            UnifiedTagEditorModalModel::StageChangesConfirm { direction, selected_button: selected },
        ),
    ensures
        ({
            let n = m.step(InputAction::Confirm);
            let answer = n.1;
            let left = m.step(InputAction::NavLeft).0.modal->0;
            let right = m.step(InputAction::NavRight).0.modal->0;
            &&& n.0.tag_fields == m.tag_fields && n.0.modal is None
            &&& selected == StageChangesButton::Yes ==> answer is StageDecisionAndNavigate
                && answer->direction == direction
                && answer->StageDecisionAndNavigate_mutations == m.mutations_in_hand()
                && answer->StageDecisionAndNavigate_key == key_of(m.mutations_in_hand())
            &&& selected == StageChangesButton::No && direction == NavigationDirection::Next
                ==> answer is NextItem
            &&& selected == StageChangesButton::No && direction == NavigationDirection::Prev
                ==> answer is PrevItem
            &&& selected == StageChangesButton::Cancel ==> answer is CloseModal
            &&& m.step(InputAction::Cancel).1 is CloseModal && m.step(
                InputAction::Cancel,
            ).0.modal is None
            &&& left is StageChangesConfirm && left->direction == direction
            &&& right is StageChangesConfirm && right->direction == direction
            &&& selected == StageChangesButton::Cancel
                ==> left->StageChangesConfirm_selected_button == StageChangesButton::No
            &&& selected != StageChangesButton::Cancel
                ==> left->StageChangesConfirm_selected_button == StageChangesButton::Yes
            &&& selected == StageChangesButton::Yes
                ==> right->StageChangesConfirm_selected_button == StageChangesButton::No
            &&& selected != StageChangesButton::Yes
                ==> right->StageChangesConfirm_selected_button == StageChangesButton::Cancel
        }),
{
}

/// Tab goes to the next file and Shift+Tab to the one before; where the file in
/// hand has changes that were not staged they ask first. Many files as one have no
/// next.
pub proof fn law_cycling_goes_from_file_to_file(m: EditorModel)
    requires
        at_fields(m),
    ensures
        ({
            let next = m.step(InputAction::CycleNext);
            let prev = m.step(InputAction::CyclePrev);
            let one = m.mode == TagEditorMode::Individual;
            let asks = m.has_changes() && m.staged_mutations_for_current != Some(
                m.mutations_in_hand(),
            );
            &&& next.0.tag_fields == m.tag_fields && prev.0.tag_fields == m.tag_fields
            &&& one && !asks ==> next.1 is NextItem && prev.1 is PrevItem && next.0 == m && prev.0
                == m
            &&& one && asks ==> next.1 is Nothing && prev.1 is Nothing && next.0.modal == Some(
                UnifiedTagEditorModalModel::StageChangesConfirm {
                    direction: NavigationDirection::Next,
                    selected_button: StageChangesButton::Yes,
                },
            ) && prev.0.modal == Some(
                UnifiedTagEditorModalModel::StageChangesConfirm {
                    direction: NavigationDirection::Prev,
                    selected_button: StageChangesButton::Yes,
                },
            )
            &&& !one ==> next == (m, UnifiedTagEditorActionModel::Nothing) && prev == (
                m,
                UnifiedTagEditorActionModel::Nothing,
            )
        }),
{
}

// ---------------------------------------------------------------------------
// Buttons
// ---------------------------------------------------------------------------

/// What the buttons do: the review stages what is left to stage, the second gives
/// the file back as it was, and the others ask for the tags of the file in hand.
pub proof fn law_buttons_are_pressed(m: EditorModel)
    requires
        m.modal is None,
        m.focus == UnifiedTagEditorFocus::Actions,
        m.current_item_idx < m.tag_fields.len(),
        m.tag_fields.len() == m.original_tag_fields.len(),
        m.current_item_idx < m.context.files().len(),
    ensures
        ({
            let n = m.step(InputAction::Confirm);
            let here = m.current_item_idx as int;
            let unstaged = m.has_changes() && m.staged_mutations_for_current != Some(
                m.mutations_in_hand(),
            );
            let review = m.selected_button == TagEditorButton::ReviewAll;
            let alone = m.launch_mode is Standalone;
            &&& m.selected_button != TagEditorButton::RevertThisFile ==> n.0 == m
            &&& m.selected_button == TagEditorButton::RevertThisFile ==> n.0.tag_fields[here]
                == m.original_tag_fields[here] && n.1 is StatusMessage && n.0.tag_fields.len()
                == m.tag_fields.len() && forall|i: int|
                0 <= i < m.tag_fields.len() && i != here ==> #[trigger] n.0.tag_fields[i]
                    == m.tag_fields[i]
            &&& m.selected_button == TagEditorButton::FillFromDisk ==> n.1 is RequestFillFromDisk
            &&& m.selected_button == TagEditorButton::FillFromDb ==> n.1
                == UnifiedTagEditorActionModel::RequestFillFromDb {
                inode: Some(m.context.files()[here].inode),
            }
            &&& review && alone && unstaged ==> n.1 is StageDecisionAndReview
                && n.1->StageDecisionAndReview_mutations == m.mutations_in_hand()
                && n.1->StageDecisionAndReview_key == key_of(m.mutations_in_hand())
            &&& review && alone && !unstaged && m.staged_decision_count > 0
                ==> n.1 is RequestTransactionReview
            &&& review && alone && !unstaged && m.staged_decision_count == 0 ==> n.1 is StatusMessage
            &&& review && !alone && m.mutations().len() == 0 ==> n.1 is CloseEmbedded
            &&& review && !alone && m.mutations().len() > 0 ==> n.1 is StageAndCloseEmbedded
                && n.1->StageAndCloseEmbedded_mutations == m.mutations()
                && n.1->StageAndCloseEmbedded_decision_key
                == m.launch_mode->Embedded_decision_key
        }),
{
}

/// Up and down go along the buttons, not past the ends; those that fill in tags
/// are there only where the file was changed from outside.
pub proof fn law_buttons_are_walked(m: EditorModel)
    requires
        m.modal is None,
        m.focus == UnifiedTagEditorFocus::Actions,
    ensures
        ({
            let up = m.step(InputAction::NavUp).0.selected_button;
            let down = m.step(InputAction::NavDown).0.selected_button;
            let b = m.selected_button;
            &&& b == TagEditorButton::ReviewAll ==> up == TagEditorButton::ReviewAll && down
                == TagEditorButton::RevertThisFile
            &&& b == TagEditorButton::RevertThisFile ==> up == TagEditorButton::ReviewAll && down
                == (if m.has_oob_signal {
                TagEditorButton::FillFromDisk
            } else {
                TagEditorButton::RevertThisFile
            })
            &&& m.has_oob_signal && b == TagEditorButton::FillFromDisk ==> up
                == TagEditorButton::RevertThisFile && down == TagEditorButton::FillFromDb
            &&& m.has_oob_signal && b == TagEditorButton::FillFromDb ==> up
                == TagEditorButton::FillFromDisk && down == TagEditorButton::FillFromDb
            &&& m.step(InputAction::NavLeft).0.focus == UnifiedTagEditorFocus::TagFields
            &&& m.step(InputAction::Cancel).0.focus == UnifiedTagEditorFocus::TagFields
        }),
{
    let p = |b: TagEditorButton| b == m.selected_button;
    crate::lists::law_first_place(m.buttons(), 0, p);
    let k = crate::lists::first_place(m.buttons(), 0, p);
    let s = m.buttons();
    assert(s[0] == TagEditorButton::ReviewAll && s[1] == TagEditorButton::RevertThisFile);
    if m.has_oob_signal {
        assert(s[2] == TagEditorButton::FillFromDisk && s[3] == TagEditorButton::FillFromDb);
        assert(s.len() == 4);
    } else {
        assert(s.len() == 2);
    }
    if k < s.len() {
        assert(p(s[k as int]));
    }
    assert forall|i: int| 0 <= i < s.len() && s[i] == m.selected_button implies k <= i by {
        if i < k {
            assert(!p(s[i]));
        }
    }
}

// ---------------------------------------------------------------------------
// Several values
// ---------------------------------------------------------------------------

/// What each input does to the values of a tag: Enter takes up the value in hand,
/// or a new one behind the last, and writes it back; Delete takes it out.
pub proof fn law_values_are_edited(modal: UnifiedTagEditorModalModel, c: char)
    requires
        modal is MultiValueEditor,
        modal->MultiValueEditor_current_value_idx <= modal->MultiValueEditor_values.len(),
        modal->MultiValueEditor_values.len() < usize::MAX,
    ensures
        ({
            let values = modal->MultiValueEditor_values;
            let at = modal->MultiValueEditor_current_value_idx as int;
            let editing = modal->MultiValueEditor_editing;
            let text = modal->MultiValueEditor_edit_buffer;
            let enter = values_step(modal, InputAction::Confirm);
            let esc = values_step(modal, InputAction::Cancel);
            let up = values_step(modal, InputAction::NavUp);
            let down = values_step(modal, InputAction::NavDown);
            let out = values_step(modal, InputAction::Delete);
            let typed = values_step(modal, InputAction::Char(c));
            let back = values_step(modal, InputAction::Backspace);
            &&& !editing ==> enter->MultiValueEditor_editing && enter->MultiValueEditor_values
                == values && enter->MultiValueEditor_edit_buffer == (if at < values.len() {
                values[at]
            } else {
                Seq::empty()
            })
            &&& editing ==> !enter->MultiValueEditor_editing
            &&& editing && at < values.len() ==> enter->MultiValueEditor_values == values.take(at)
                + seq![text] + values.skip(at + 1)
            &&& editing && at == values.len() && text.len() > 0 ==> enter->MultiValueEditor_values
                == values + seq![text]
            &&& editing && at == values.len() && text.len() == 0 ==> enter->MultiValueEditor_values
                == values
            &&& !esc->MultiValueEditor_editing && esc->MultiValueEditor_values == values
            &&& !editing ==> up->MultiValueEditor_current_value_idx == (if at == 0 {
                0
            } else {
                at - 1
            })
            &&& !editing ==> down->MultiValueEditor_current_value_idx == (if at == values.len() {
                at
            } else {
                at + 1
            })
            &&& editing ==> up->MultiValueEditor_current_value_idx == at
                && down->MultiValueEditor_current_value_idx == at
            &&& up->MultiValueEditor_values == values && down->MultiValueEditor_values == values
            &&& !editing && at < values.len() ==> out->MultiValueEditor_values == values.take(at)
                + values.skip(at + 1) && back->MultiValueEditor_values == values.take(at)
                + values.skip(at + 1)
            &&& !editing && at == values.len() ==> out == modal && back == modal
            &&& editing ==> out == modal && typed->MultiValueEditor_edit_buffer == text + seq![c]
                && typed->MultiValueEditor_values == values && back->MultiValueEditor_values == values
            &&& editing && text.len() > 0 ==> back->MultiValueEditor_edit_buffer + seq![text.last()]
                == text
            &&& !editing ==> typed == modal
        }),
{
    let values = modal->MultiValueEditor_values;
    let at = modal->MultiValueEditor_current_value_idx as int;
    let text = modal->MultiValueEditor_edit_buffer;
    if at < values.len() {
        assert(values.update(at, text) =~= values.take(at) + seq![text] + values.skip(at + 1));
        assert(values.remove(at) =~= values.take(at) + values.skip(at + 1));
    }
    assert(values.push(text) =~= values + seq![text]);
    assert(text.push(c) =~= text + seq![c]);
    if text.len() > 0 {
        assert(text.drop_last() + seq![text.last()] =~= text);
    }
}

/// Closing the values of a tag puts them in place of its lines, in their order;
/// the other lines stay in theirs, and no other file is changed.
pub proof fn law_values_replace_the_lines(m: EditorModel, f: TagFieldModel)
    requires
        m.modal is Some,
        m.modal->0 is MultiValueEditor,
        !m.modal->0->MultiValueEditor_editing,
        m.current_item_idx < m.tag_fields.len(),
        m.modal->0->MultiValueEditor_field_idx < m.tag_fields[m.current_item_idx as int].len(),
    ensures
        ({
            let n = m.step(InputAction::Cancel).0;
            let before = m.tag_fields[m.current_item_idx as int];
            let after = n.tag_fields[m.current_item_idx as int];
            let name = before[m.modal->0->MultiValueEditor_field_idx as int].name;
            let values = m.modal->0->MultiValueEditor_values;
            &&& n.modal is None
            &&& n.tag_fields.len() == m.tag_fields.len()
            &&& forall|i: int|
                0 <= i < m.tag_fields.len() && i != m.current_item_idx ==> #[trigger] n.tag_fields[i]
                    == m.tag_fields[i]
            &&& uppercase(f.name) != uppercase(name) ==> (after.contains(f) <==> before.contains(f))
            &&& uppercase(f.name) == uppercase(name) ==> (after.contains(f) <==> f.name == name
                && f.editable && !f.deleted && values.contains(f.value))
            &&& picked(after, loud(uppercase(name)), field_value()) == values
        }),
{
    let n = m.step(InputAction::Cancel).0;
    let before = m.tag_fields[m.current_item_idx as int];
    let after = n.tag_fields[m.current_item_idx as int];
    let field_idx = m.modal->0->MultiValueEditor_field_idx;
    let name = before[field_idx as int].name;
    let values = m.modal->0->MultiValueEditor_values;
    let q = not_loud(uppercase(name));
    let p = loud(uppercase(name));
    let rest = chosen(before, q);
    let at: int = if field_idx < rest.len() {
        field_idx as int
    } else {
        rest.len() as int
    };
    let put = values.map_values(valued(name));
    law_chosen(before, q);
    assert(after == rest.take(at) + put + rest.skip(at));
    lemma_in_three(rest.take(at), put, rest.skip(at), f);
    assert(rest =~= rest.take(at) + rest.skip(at));
    lemma_in_three(rest.take(at), Seq::empty(), rest.skip(at), f);
    assert(rest.take(at) + Seq::<TagFieldModel>::empty() + rest.skip(at) =~= rest);
    if rest.contains(f) {
        let k = choose|k: int| 0 <= k < rest.len() && rest[k] == f;
        assert(q(rest[k]) && before.contains(rest[k]));
    }
    if before.contains(f) && uppercase(f.name) != uppercase(name) {
        let k = choose|k: int| 0 <= k < before.len() && before[k] == f;
        assert(q(before[k]));
        assert(rest.contains(before[k]));
    }
    if put.contains(f) {
        let k = choose|k: int| 0 <= k < put.len() && put[k] == f;
        assert(values[k] == f.value);
    }
    if f.name == name && f.editable && !f.deleted && values.contains(f.value) {
        let k = choose|k: int| 0 <= k < values.len() && values[k] == f.value;
        assert(put[k] == f);
    }
    crate::lists::law_picked_joined(rest.take(at) + put, rest.skip(at), p, field_value());
    crate::lists::law_picked_joined(rest.take(at), put, p, field_value());
    assert forall|i: int| 0 <= i < rest.len() implies !p(#[trigger] rest[i]) by {
        assert(q(rest[i]));
    }
    lemma_none_or_some(rest.take(at), p);
    lemma_none_or_some(rest.skip(at), p);
    assert(picked(rest.take(at), p, field_value()) =~= Seq::<Seq<char>>::empty());
    assert(picked(rest.skip(at), p, field_value()) =~= Seq::<Seq<char>>::empty());
    lemma_all_chosen(put, p);
    assert(picked(put, p, field_value()) =~= values);
}

proof fn lemma_all_chosen(s: Seq<TagFieldModel>, p: spec_fn(TagFieldModel) -> bool)
    requires
        forall|i: int| 0 <= i < s.len() ==> p(#[trigger] s[i]),
    ensures
        chosen(s, p) == s,
    decreases s.len(),
{
    if s.len() > 0 {
        lemma_all_chosen(s.drop_last(), p);
        assert(p(s[s.len() - 1]));
        assert(s.drop_last().push(s.last()) =~= s);
    } else {
        assert(chosen(s, p) =~= s);
    }
}

proof fn lemma_in_three(
    a: Seq<TagFieldModel>,
    b: Seq<TagFieldModel>,
    c: Seq<TagFieldModel>,
    f: TagFieldModel,
)
    ensures
        (a + b + c).contains(f) <==> a.contains(f) || b.contains(f) || c.contains(f),
{
    let all = a + b + c;
    if all.contains(f) {
        let k = choose|k: int| 0 <= k < all.len() && all[k] == f;
        if k < a.len() {
            assert(a[k] == f);
        } else if k < a.len() + b.len() {
            assert(b[k - a.len()] == f);
        } else {
            assert(c[k - a.len() - b.len()] == f);
        }
    }
    if a.contains(f) {
        let k = choose|k: int| 0 <= k < a.len() && a[k] == f;
        assert(all[k] == f);
    }
    if b.contains(f) {
        let k = choose|k: int| 0 <= k < b.len() && b[k] == f;
        assert(all[a.len() + k] == f);
    }
    if c.contains(f) {
        let k = choose|k: int| 0 <= k < c.len() && c[k] == f;
        assert(all[a.len() + b.len() + k] == f);
    }
}

// ---------------------------------------------------------------------------
// Keys of decisions
// ---------------------------------------------------------------------------

/// The key of a decision names each inode that is touched once and in order, and
/// likewise each tag, in large letters.
pub proof fn law_key_names_what_is_touched(ops: Seq<TagOpModel>, inode: i64, tag: Seq<char>)
    ensures
        touched_inodes(ops).contains(inode) <==> exists|k: int|
            0 <= k < ops.len() && (#[trigger] ops[k]).inode == inode,
        touched_tags(ops).contains(tag) <==> exists|k: int|
            0 <= k < ops.len() && uppercase((#[trigger] ops[k]).tag_name) == tag,
        touched_inodes(ops).len() <= ops.len(),
        touched_tags(ops).len() <= ops.len(),
{
    let inodes = ops.map_values(op_inode());
    let tags = ops.map_values(op_tag());
    law_distinct(inodes);
    law_distinct(tags);
    let by_inode = |a: i64, b: i64| <i64 as crate::ordering::Ranked>::precedes(a, b);
    let by_tag = |a: Seq<char>, b: Seq<char>| <String as crate::ordering::Ranked>::precedes(a, b);
    law_in_order(distinct(inodes), by_inode);
    law_in_order(distinct(tags), by_tag);
    law_in_order_contains(distinct(inodes), by_inode);
    law_in_order_contains(distinct(tags), by_tag);
    assert(touched_inodes(ops).contains(inode) <==> inodes.contains(inode));
    assert(touched_tags(ops).contains(tag) <==> tags.contains(tag));
    if inodes.contains(inode) {
        let k = choose|k: int| 0 <= k < inodes.len() && inodes[k] == inode;
        assert(ops[k].inode == inode);
    }
    if exists|k: int| 0 <= k < ops.len() && (#[trigger] ops[k]).inode == inode {
        let k = choose|k: int| 0 <= k < ops.len() && (#[trigger] ops[k]).inode == inode;
        assert(inodes[k] == inode);
    }
    if tags.contains(tag) {
        let k = choose|k: int| 0 <= k < tags.len() && tags[k] == tag;
        assert(uppercase(ops[k].tag_name) == tag);
    }
    if exists|k: int| 0 <= k < ops.len() && uppercase((#[trigger] ops[k]).tag_name) == tag {
        let k = choose|k: int| 0 <= k < ops.len() && uppercase((#[trigger] ops[k]).tag_name) == tag;
        assert(tags[k] == tag);
    }
    lemma_distinct_shorter(inodes);
    lemma_distinct_shorter(tags);
}

proof fn lemma_distinct_shorter<T>(s: Seq<T>)
    ensures
        distinct(s).len() <= s.len(),
    decreases s.len(),
{
    if s.len() > 0 {
        lemma_distinct_shorter(s.drop_last());
    }
}

} // verus!
