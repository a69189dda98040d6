//! What the tag editor is, in terms of sequences: its state, and how each input
//! changes it.

use vstd::prelude::*;

use crate::corpus::{DecisionKeyModel, DecisionSource, MutationModel, TagOpModel};
use crate::input::InputAction;
use crate::lists::{chosen, distinct, first_place, picked};
use crate::ordering::{in_order, Ranked};
use crate::tag_editor::mutations::{all_changes, as_one, fields_from_disk, ops_of, sorted_fields};
use crate::tag_editor::types::{AggregatedTagFieldModel, AggregatedValueModel, FieldEditState, NavigationDirection, StageChangesButton, TagChangeModel, TagEditContextModel, TagEditorButton, TagEditorLaunchModeModel, TagEditorMode, TagFieldModel, UnifiedTagEditorActionModel, UnifiedTagEditorFocus, UnifiedTagEditorModalModel, UnsavedChangesButton};
use crate::text::{same_but_case, separated, signed_decimal, uppercase};

verus! {

/// The model of the tag editor.
pub struct EditorModel {
    pub context: TagEditContextModel,
    pub mode: TagEditorMode,
    pub current_item_idx: usize,
    pub total_items: usize,
    pub current_field_idx: usize,
    pub field_scroll_offset: usize,
    pub field_visible_height: usize,
    pub field_edit_state: FieldEditState,
    pub name_buffer: Seq<char>,
    pub value_buffer: Seq<char>,
    pub focus_on_value: bool,
    pub tag_fields: Seq<Seq<TagFieldModel>>,
    pub original_tag_fields: Seq<Seq<TagFieldModel>>,
    pub aggregated_fields: Option<Seq<AggregatedTagFieldModel>>,
    pub focus: UnifiedTagEditorFocus,
    pub selected_button: TagEditorButton,
    pub modal: Option<UnifiedTagEditorModalModel>,
    pub has_oob_signal: bool,
    pub context_list_scroll_offset: usize,
    pub context_list_visible_height: usize,
    pub staged_decision_count: usize,
    pub staged_mutations_for_current: Option<Seq<MutationModel>>,
    pub launch_mode: TagEditorLaunchModeModel,
}

// ---------------------------------------------------------------------------
// Changes
// ---------------------------------------------------------------------------

/// Whether an aggregate was given a new value.
pub open spec fn is_edited(f: AggregatedTagFieldModel) -> bool {
    f.value is Edited
}

/// The condition of bearing a name, whatever the case of its letters.
pub open spec fn named(name: Seq<char>) -> spec_fn(TagFieldModel) -> bool {
    |f: TagFieldModel| same_but_case(f.name, name)
}

/// The value that a file had under a name, or nothing.
pub open spec fn former_value(fields: Seq<TagFieldModel>, name: Seq<char>) -> Seq<char> {
    let i = first_place(fields, 0, named(name));
    if i < fields.len() {
        fields[i as int].value
    } else {
        Seq::empty()
    }
}

/// The value that a file had under a name, or nothing where the file is not
/// among the original ones.
pub open spec fn former_value_at(
    original: Seq<Seq<TagFieldModel>>,
    track_idx: int,
    name: Seq<char>,
) -> Seq<char> {
    if track_idx < original.len() {
        former_value(original[track_idx], name)
    } else {
        Seq::empty()
    }
}

/// The changes that a new value makes to the first `n` files: one for each file
/// that had another value.
pub open spec fn value_changes(
    n: nat,
    name: Seq<char>,
    value: Seq<char>,
    original: Seq<Seq<TagFieldModel>>,
) -> Seq<TagChangeModel>
    decreases n,
{
    if n == 0 {
        Seq::empty()
    } else {
        let r = value_changes((n - 1) as nat, name, value, original);
        let old = former_value_at(original, n - 1, name);
        if old == value {
            r
        } else {
            r.push(
                TagChangeModel {
                    track_idx: (n - 1) as usize,
                    field_name: name,
                    old_value: old,
                    new_value: value,
                },
            )
        }
    }
}

/// The changes that the edited aggregates make to `n` files.
pub open spec fn aggregate_changes(
    fields: Seq<AggregatedTagFieldModel>,
    n: nat,
    original: Seq<Seq<TagFieldModel>>,
) -> Seq<TagChangeModel>
    decreases fields.len(),
{
    if fields.len() == 0 {
        Seq::empty()
    } else {
        let r = aggregate_changes(fields.drop_last(), n, original);
        match fields.last().value {
            AggregatedValueModel::Edited(v) => r + value_changes(
                n,
                fields.last().name,
                v,
                original,
            ),
            _ => r,
        }
    }
}

/// The condition of being a change to one file.
pub open spec fn of_file(track_idx: usize) -> spec_fn(TagChangeModel) -> bool {
    |c: TagChangeModel| c.track_idx == track_idx
}

// ---------------------------------------------------------------------------
// Keys
// ---------------------------------------------------------------------------

/// The tag operations of some mutations.
pub open spec fn ops_in(mutations: Seq<MutationModel>) -> Seq<TagOpModel>
    decreases mutations.len(),
{
    if mutations.len() == 0 {
        Seq::empty()
    } else {
        let r = ops_in(mutations.drop_last());
        match mutations.last() {
            MutationModel::ApplyTagOps { ops } => r + ops,
            _ => r,
        }
    }
}

/// The inode of an operation.
pub open spec fn op_inode() -> spec_fn(TagOpModel) -> i64 {
    |op: TagOpModel| op.inode
}

/// The tag of an operation, in upper case.
pub open spec fn op_tag() -> spec_fn(TagOpModel) -> Seq<char> {
    |op: TagOpModel| uppercase(op.tag_name)
}

/// A number in decimal.
pub open spec fn in_decimal() -> spec_fn(i64) -> Seq<char> {
    |i: i64| signed_decimal(i as int)
}

/// The inodes that operations touch, each once, in rising order.
pub open spec fn touched_inodes(ops: Seq<TagOpModel>) -> Seq<i64> {
    in_order(distinct(ops.map_values(op_inode())), |a: i64, b: i64| i64::precedes(a, b))
}

/// The tags that operations touch, in upper case, each once, in alphabetical
/// order.
pub open spec fn touched_tags(ops: Seq<TagOpModel>) -> Seq<Seq<char>> {
    in_order(
        distinct(ops.map_values(op_tag())),
        |a: Seq<char>, b: Seq<char>| String::precedes(a, b),
    )
}

/// The item of a decision key: the inodes and the tags that it touches, and
/// nothing else.
pub open spec fn key_item(mutations: Seq<MutationModel>) -> Seq<char> {
    let ops = ops_in(mutations);
    let inodes = separated(touched_inodes(ops).map_values(in_decimal()), ","@);
    let tags = separated(touched_tags(ops), ","@);
    if tags.len() == 0 {
        inodes
    } else {
        inodes + ":"@ + tags
    }
}

/// The key of a decision.
pub open spec fn key_of(mutations: Seq<MutationModel>) -> DecisionKeyModel {
    DecisionKeyModel { source: DecisionSource::TagEdit, item: key_item(mutations) }
}

// ---------------------------------------------------------------------------
// Fields
// ---------------------------------------------------------------------------

/// The first line of the window, moved on so that a line below it is shown.
pub open spec fn scrolled_down(idx: usize, offset: usize, height: usize) -> usize {
    let below: int = if height == 0 {
        0
    } else {
        height - 1
    };
    let above: int = if height < 2 {
        0
    } else {
        height - 2
    };
    if idx >= offset + below {
        if idx < above {
            0
        } else {
            (idx - above) as usize
        }
    } else {
        offset
    }
}

/// The condition of bearing a name in upper case.
pub open spec fn loud(name: Seq<char>) -> spec_fn(TagFieldModel) -> bool {
    |f: TagFieldModel| uppercase(f.name) == name
}

/// The condition of not bearing a name in upper case.
pub open spec fn not_loud(name: Seq<char>) -> spec_fn(TagFieldModel) -> bool {
    |f: TagFieldModel| uppercase(f.name) != name
}

/// The condition of bearing a name in upper case and not being the line that
/// creates a tag.
pub open spec fn loud_tag(name: Seq<char>) -> spec_fn(TagFieldModel) -> bool {
    |f: TagFieldModel| uppercase(f.name) == name && f.name != "New Tag"@
}

/// A field with another name where it bears the old one.
pub open spec fn renaming(old: Seq<char>, new: Seq<char>) -> spec_fn(TagFieldModel) -> TagFieldModel {
    |f: TagFieldModel|
        if uppercase(f.name) == old {
            TagFieldModel { name: new, ..f }
        } else {
            f
        }
}

/// A value as a field of a tag.
pub open spec fn valued(name: Seq<char>) -> spec_fn(Seq<char>) -> TagFieldModel {
    |v: Seq<char>| TagFieldModel { name, value: v, editable: true, deleted: false }
}

/// Fields in which the tag of one field has other values. They stand together
/// where that field stood, as far as the other fields reach.
pub open spec fn with_values(
    fields: Seq<TagFieldModel>,
    field_idx: usize,
    values: Seq<Seq<char>>,
) -> Seq<TagFieldModel> {
    let name = fields[field_idx as int].name;
    let rest = chosen(fields, not_loud(uppercase(name)));
    let at: int = if field_idx < rest.len() {
        field_idx as int
    } else {
        rest.len() as int
    };
    rest.take(at) + values.map_values(valued(name)) + rest.skip(at)
}

/// The value of a field.
pub open spec fn field_value() -> spec_fn(TagFieldModel) -> Seq<char> {
    |f: TagFieldModel| f.value
}

impl EditorModel {
    /// Whether another view owns the transaction.
    pub open spec fn embedded(self) -> bool {
        self.launch_mode is Embedded
    }

    /// Whether all files are edited as one.
    pub open spec fn aggregated(self) -> bool {
        self.mode == TagEditorMode::Aggregated
    }

    /// Whether an aggregate was given a new value.
    pub open spec fn aggregates_edited(self) -> bool {
        match self.aggregated_fields {
            Some(f) => exists|i: int| 0 <= i < f.len() && is_edited(#[trigger] f[i]),
            None => false,
        }
    }

    /// The changes of all files.
    pub open spec fn changes(self) -> Seq<TagChangeModel> {
        if self.aggregated() {
            match self.aggregated_fields {
                Some(f) => aggregate_changes(f, self.tag_fields.len(), self.original_tag_fields),
                None => Seq::empty(),
            }
        } else {
            all_changes(self.original_tag_fields, self.tag_fields)
        }
    }

    /// The changes that are staged together: those of the file in hand, or of
    /// all files where they are edited as one.
    pub open spec fn changes_in_hand(self) -> Seq<TagChangeModel> {
        if self.aggregated() {
            self.changes()
        } else {
            chosen(self.changes(), of_file(self.current_item_idx))
        }
    }

    /// Whether there is anything to save in what is in hand.
    pub open spec fn has_changes(self) -> bool {
        if self.aggregated() {
            self.aggregates_edited()
        } else {
            self.changes_in_hand().len() != 0
        }
    }

    /// What the changes of all files ask for.
    pub open spec fn mutations(self) -> Seq<MutationModel> {
        as_one(ops_of(self.changes(), self.context.files()))
    }

    /// What the changes in hand ask for.
    pub open spec fn mutations_in_hand(self) -> Seq<MutationModel> {
        as_one(ops_of(self.changes_in_hand(), self.context.files()))
    }

    /// Whether the changes in hand are staged as they are.
    pub open spec fn matches_staged(self) -> bool {
        self.staged_mutations_for_current == Some(self.mutations_in_hand())
    }

    /// Whether there are changes in hand that are not staged.
    pub open spec fn unstaged(self) -> bool {
        self.has_changes() && !self.matches_staged()
    }

    /// The number of lines of the fields pane.
    pub open spec fn field_count(self) -> nat {
        if self.aggregated() {
            match self.aggregated_fields {
                Some(f) => f.len(),
                None => 0,
            }
        } else if self.current_item_idx < self.tag_fields.len() {
            self.tag_fields[self.current_item_idx as int].len()
        } else {
            0
        }
    }

    /// The fields of the file in hand.
    pub open spec fn fields_in_hand(self) -> Option<Seq<TagFieldModel>> {
        if self.current_item_idx < self.tag_fields.len() {
            Some(self.tag_fields[self.current_item_idx as int])
        } else {
            None
        }
    }

    /// The field in hand of the file in hand.
    pub open spec fn field_in_hand(self) -> Option<TagFieldModel> {
        match self.fields_in_hand() {
            Some(f) => if self.current_field_idx < f.len() {
                Some(f[self.current_field_idx as int])
            } else {
                None
            },
            None => None,
        }
    }

    /// The aggregate in hand.
    pub open spec fn aggregate_in_hand(self) -> Option<AggregatedTagFieldModel> {
        match self.aggregated_fields {
            Some(f) => if self.current_field_idx < f.len() {
                Some(f[self.current_field_idx as int])
            } else {
                None
            },
            None => None,
        }
    }

    /// Other fields for the file in hand.
    pub open spec fn with_fields(self, fields: Seq<TagFieldModel>) -> Self {
        EditorModel {
            tag_fields: self.tag_fields.update(self.current_item_idx as int, fields),
            ..self
        }
    }

    /// Another field in place of the one in hand.
    pub open spec fn with_field(self, field: TagFieldModel) -> Self {
        self.with_fields(
            self.tag_fields[self.current_item_idx as int].update(
                self.current_field_idx as int,
                field,
            ),
        )
    }

    /// Another aggregate in place of the one in hand.
    pub open spec fn with_aggregate(self, field: AggregatedTagFieldModel) -> Self {
        EditorModel {
            aggregated_fields: Some(
                self.aggregated_fields->0.update(self.current_field_idx as int, field),
            ),
            ..self
        }
    }

    /// Another state of typing.
    pub open spec fn editing(self, state: FieldEditState) -> Self {
        EditorModel { field_edit_state: state, ..self }
    }

    /// The field in hand taken into the buffers.
    pub open spec fn load(self) -> Self {
        if self.aggregated() {
            match self.aggregate_in_hand() {
                Some(f) => EditorModel {
                    name_buffer: f.name,
                    value_buffer: f.value.text(),
                    ..self
                },
                None => self,
            }
        } else {
            match self.field_in_hand() {
                Some(f) => EditorModel { name_buffer: f.name, value_buffer: f.value, ..self },
                None => self,
            }
        }
    }

    /// The buffer that was typed in taken into the field in hand. A new name
    /// goes to every value of the tag.
    pub open spec fn commit(self) -> Self {
        if self.aggregated() {
            match self.aggregate_in_hand() {
                Some(f) => match self.field_edit_state {
                    FieldEditState::EditingName => self.with_aggregate(
                        AggregatedTagFieldModel { name: self.name_buffer, ..f },
                    ),
                    FieldEditState::EditingValue => self.with_aggregate(
                        AggregatedTagFieldModel {
                            value: AggregatedValueModel::Edited(self.value_buffer),
                            ..f
                        },
                    ),
                    FieldEditState::NonEditable => self,
                },
                None => self,
            }
        } else {
            match self.field_in_hand() {
                Some(f) => match self.field_edit_state {
                    FieldEditState::EditingName => self.with_fields(
                        self.tag_fields[self.current_item_idx as int].map_values(
                            renaming(uppercase(f.name), self.name_buffer),
                        ),
                    ),
                    FieldEditState::EditingValue => self.with_field(
                        TagFieldModel { value: self.value_buffer, ..f },
                    ),
                    FieldEditState::NonEditable => self,
                },
                None => self,
            }
        }
    }

    /// The buffer taken in only where something is being typed.
    pub open spec fn commit_if_editing(self) -> Self {
        if self.field_edit_state == FieldEditState::NonEditable {
            self
        } else {
            self.commit()
        }
    }

    /// How many values the tag in hand has, where it has several.
    pub open spec fn several_values(self) -> Option<nat> {
        match self.field_in_hand() {
            Some(f) => {
                let n = chosen(
                    self.tag_fields[self.current_item_idx as int],
                    loud_tag(uppercase(f.name)),
                ).len();
                if n > 1 {
                    Some(n)
                } else {
                    None
                }
            },
            None => None,
        }
    }

    /// The modal with all the values of the tag in hand.
    pub open spec fn open_values(self) -> Self {
        match self.field_in_hand() {
            Some(f) => EditorModel {
                modal: Some(
                    UnifiedTagEditorModalModel::MultiValueEditor {
                        field_idx: self.current_field_idx,
                        values: picked(
                            self.tag_fields[self.current_item_idx as int],
                            loud(uppercase(f.name)),
                            field_value(),
                        ),
                        current_value_idx: 0,
                        editing: false,
                        edit_buffer: Seq::empty(),
                    },
                ),
                ..self
            },
            None => self,
        }
    }

    /// Other values for the tag of a field.
    pub open spec fn apply_values(self, field_idx: usize, values: Seq<Seq<char>>) -> Self {
        match self.fields_in_hand() {
            Some(f) => if field_idx < f.len() {
                self.with_fields(with_values(f, field_idx, values))
            } else {
                self
            },
            None => self,
        }
    }

    /// A new tag before the line that creates one, its name being typed.
    pub open spec fn create_tag(self) -> Self {
        let made = match self.fields_in_hand() {
            Some(f) => {
                let at: usize = if f.len() == 0 {
                    0
                } else {
                    (f.len() - 1) as usize
                };
                let fresh = TagFieldModel {
                    name: "new_tag"@,
                    value: Seq::empty(),
                    editable: true,
                    deleted: false,
                };
                EditorModel {
                    current_field_idx: at,
                    field_scroll_offset: if self.field_visible_height > 0 {
                        scrolled_down(at, self.field_scroll_offset, self.field_visible_height)
                    } else {
                        self.field_scroll_offset
                    },
                    ..self.with_fields(f.insert(at as int, fresh))
                }
            },
            None => self,
        };
        EditorModel {
            field_edit_state: FieldEditState::EditingName,
            name_buffer: "new_tag"@,
            value_buffer: Seq::empty(),
            focus_on_value: false,
            ..made
        }
    }

    /// The answer to Enter on an aggregate. Overwriting differing values takes
    /// two confirmations.
    pub open spec fn enter_aggregate(self) -> Self {
        match self.aggregate_in_hand() {
            None => self,
            Some(f) => if self.field_edit_state != FieldEditState::NonEditable {
                self.commit().editing(FieldEditState::NonEditable)
            } else if !self.focus_on_value {
                self.editing(FieldEditState::EditingName).load()
            } else if f.value is Various {
                self.with_aggregate(
                    AggregatedTagFieldModel { value: AggregatedValueModel::VariousConfirming, ..f },
                )
            } else {
                self.editing(FieldEditState::EditingValue).load()
            },
        }
    }

    /// The answer to Enter on a field.
    pub open spec fn enter_field(self) -> Self {
        match self.field_in_hand() {
            None => self,
            Some(f) => if f.name == "New Tag"@ {
                self.create_tag()
            } else if self.field_edit_state != FieldEditState::NonEditable {
                self.commit().editing(FieldEditState::NonEditable)
            } else if !self.focus_on_value {
                self.editing(FieldEditState::EditingName).load()
            } else if self.several_values() is Some {
                self.open_values()
            } else {
                self.editing(FieldEditState::EditingValue).load()
            },
        }
    }

    /// The answer to Enter.
    pub open spec fn enter(self) -> Self {
        if self.aggregated() {
            self.enter_aggregate()
        } else {
            self.enter_field()
        }
    }

    /// One more character typed.
    pub open spec fn typed(self, c: char) -> Self {
        match self.field_edit_state {
            FieldEditState::EditingName => EditorModel {
                name_buffer: self.name_buffer.push(c),
                ..self
            },
            FieldEditState::EditingValue => EditorModel {
                value_buffer: self.value_buffer.push(c),
                ..self
            },
            FieldEditState::NonEditable => self,
        }
    }

    /// The last character taken back.
    pub open spec fn untyped(self) -> Self {
        match self.field_edit_state {
            FieldEditState::EditingName => EditorModel {
                name_buffer: without_last(self.name_buffer),
                ..self
            },
            FieldEditState::EditingValue => EditorModel {
                value_buffer: without_last(self.value_buffer),
                ..self
            },
            FieldEditState::NonEditable => self,
        }
    }

    /// What is being typed emptied, or the value in hand where nothing is.
    pub open spec fn cleared(self) -> Self {
        match self.field_edit_state {
            FieldEditState::EditingName => EditorModel { name_buffer: Seq::empty(), ..self },
            FieldEditState::EditingValue => EditorModel { value_buffer: Seq::empty(), ..self },
            FieldEditState::NonEditable => match self.field_in_hand() {
                Some(f) => self.with_field(TagFieldModel { value: Seq::empty(), ..f }),
                None => self,
            },
        }
    }

    /// The mark for deletion of the field in hand switched over, where it may be
    /// edited and is not the line that creates a tag.
    pub open spec fn mark_switched(self) -> Self {
        match self.field_in_hand() {
            Some(f) => if f.editable && f.name != "New Tag"@ {
                self.with_field(TagFieldModel { deleted: !f.deleted, ..f })
            } else {
                self
            },
            None => self,
        }
    }

    /// The file in hand as it was.
    pub open spec fn reverted(self) -> Self {
        let fields = if self.current_item_idx < self.original_tag_fields.len()
            && self.current_item_idx < self.tag_fields.len() {
            self.tag_fields.update(
                self.current_item_idx as int,
                self.original_tag_fields[self.current_item_idx as int],
            )
        } else {
            self.tag_fields
        };
        EditorModel {
            tag_fields: fields,
            field_edit_state: FieldEditState::NonEditable,
            ..self
        }
    }

    /// The file in hand with other fields, which are also what it is compared
    /// with from now on.
    pub open spec fn refilled(self, fields: Seq<TagFieldModel>) -> Self {
        let i = self.current_item_idx as int;
        EditorModel {
            tag_fields: if i < self.tag_fields.len() {
                self.tag_fields.update(i, fields)
            } else {
                self.tag_fields
            },
            original_tag_fields: if i < self.original_tag_fields.len() {
                self.original_tag_fields.update(i, fields)
            } else {
                self.original_tag_fields
            },
            current_field_idx: 0,
            field_scroll_offset: 0,
            field_edit_state: FieldEditState::NonEditable,
            has_oob_signal: false,
            ..self
        }
    }

    /// The tags of the file in hand read from disk again.
    pub open spec fn filled_from_disk(self, tags: Option<Seq<(Seq<char>, Seq<char>)>>) -> Self {
        match self.context.file_at(self.current_item_idx) {
            Some(_) => self.refilled(fields_from_disk(tags)),
            None => self,
        }
    }

    /// The tags of the file in hand taken from the index.
    pub open spec fn filled_from_db(self, tags: Seq<(Seq<char>, Seq<char>)>) -> Self {
        self.refilled(
            sorted_fields(tags).push(
                TagFieldModel {
                    name: "New Tag"@,
                    value: Seq::empty(),
                    editable: false,
                    deleted: false,
                },
            ),
        )
    }

    /// The buttons that are offered.
    pub open spec fn buttons(self) -> Seq<TagEditorButton> {
        if self.has_oob_signal {
            seq![
                TagEditorButton::ReviewAll,
                TagEditorButton::RevertThisFile,
                TagEditorButton::FillFromDisk,
                TagEditorButton::FillFromDb,
            ]
        } else {
            seq![TagEditorButton::ReviewAll, TagEditorButton::RevertThisFile]
        }
    }

    /// The place of the button in hand, or 0 where it is not offered.
    pub open spec fn button_place(self) -> int {
        let i = first_place(
            self.buttons(),
            0,
            |b: TagEditorButton| b == self.selected_button,
        );
        if i < self.buttons().len() {
            i as int
        } else {
            0
        }
    }

    // -----------------------------------------------------------------------
    // Input
    // -----------------------------------------------------------------------

    /// Another modal, or none.
    pub open spec fn with_modal(self, modal: Option<UnifiedTagEditorModalModel>) -> Self {
        EditorModel { modal, ..self }
    }

    /// An input while the modal on unsaved changes is open.
    pub open spec fn step_unsaved(self, selected: UnsavedChangesButton, action: InputAction) -> (
        Self,
        UnifiedTagEditorActionModel,
    ) {
        match action {
            InputAction::Confirm => match selected {
                UnsavedChangesButton::KeepEditing => (
                    self.with_modal(None),
                    UnifiedTagEditorActionModel::CloseModal,
                ),
                UnsavedChangesButton::DiscardAndProceed => (
                    self.reverted().with_modal(None),
                    if self.embedded() {
                        UnifiedTagEditorActionModel::CloseEmbedded
                    } else {
                        UnifiedTagEditorActionModel::DiscardTransaction
                    },
                ),
            },
            InputAction::Cancel => (
                self.with_modal(None),
                UnifiedTagEditorActionModel::CloseModal,
            ),
            InputAction::NavLeft | InputAction::NavRight | InputAction::CycleNext => (
                self.with_modal(
                    Some(
                        UnifiedTagEditorModalModel::UnsavedChanges {
                            selected_button: match selected {
                                UnsavedChangesButton::KeepEditing => UnsavedChangesButton::DiscardAndProceed,
                                UnsavedChangesButton::DiscardAndProceed => UnsavedChangesButton::KeepEditing,
                            },
                        },
                    ),
                ),
                UnifiedTagEditorActionModel::Nothing,
            ),
            _ => (self, UnifiedTagEditorActionModel::Nothing),
        }
    }

    /// An input while the modal on staging is open.
    pub open spec fn step_staging(
        self,
        direction: NavigationDirection,
        selected: StageChangesButton,
        action: InputAction,
    ) -> (Self, UnifiedTagEditorActionModel) {
        match action {
            InputAction::Confirm => match selected {
                StageChangesButton::Yes => (
                    self.with_modal(None),
                    UnifiedTagEditorActionModel::StageDecisionAndNavigate {
                        key: key_of(self.mutations_in_hand()),
                        mutations: self.mutations_in_hand(),
                        direction,
                    },
                ),
                StageChangesButton::No => (
                    self.with_modal(None),
                    match direction {
                        NavigationDirection::Next => UnifiedTagEditorActionModel::NextItem,
                        NavigationDirection::Prev => UnifiedTagEditorActionModel::PrevItem,
                    },
                ),
                StageChangesButton::Cancel => (
                    self.with_modal(None),
                    UnifiedTagEditorActionModel::CloseModal,
                ),
            },
            InputAction::Cancel => (
                self.with_modal(None),
                UnifiedTagEditorActionModel::CloseModal,
            ),
            InputAction::NavLeft => (
                self.with_modal(
                    Some(
                        UnifiedTagEditorModalModel::StageChangesConfirm {
                            direction,
                            selected_button: match selected {
                                StageChangesButton::Yes => StageChangesButton::Yes,
                                StageChangesButton::No => StageChangesButton::Yes,
                                StageChangesButton::Cancel => StageChangesButton::No,
                            },
                        },
                    ),
                ),
                UnifiedTagEditorActionModel::Nothing,
            ),
            InputAction::NavRight | InputAction::CycleNext => (
                self.with_modal(
                    Some(
                        UnifiedTagEditorModalModel::StageChangesConfirm {
                            direction,
                            selected_button: match selected {
                                StageChangesButton::Yes => StageChangesButton::No,
                                StageChangesButton::No => StageChangesButton::Cancel,
                                StageChangesButton::Cancel => StageChangesButton::Cancel,
                            },
                        },
                    ),
                ),
                UnifiedTagEditorActionModel::Nothing,
            ),
            _ => (self, UnifiedTagEditorActionModel::Nothing),
        }
    }

    /// An input while a modal is open.
    pub open spec fn step_modal(self, action: InputAction) -> (Self, UnifiedTagEditorActionModel) {
        match self.modal {
            None => (self, UnifiedTagEditorActionModel::Nothing),
            Some(modal) => match modal {
                UnifiedTagEditorModalModel::UnsavedChanges { selected_button } => self.step_unsaved(
                    selected_button,
                    action,
                ),
                UnifiedTagEditorModalModel::StageChangesConfirm { direction, selected_button } => self.step_staging(
                    direction,
                    selected_button,
                    action,
                ),
                UnifiedTagEditorModalModel::MultiValueEditor { .. } => {
                    if action is Cancel && !modal->MultiValueEditor_editing {
                        (
                            self.apply_values(
                                modal->MultiValueEditor_field_idx,
                                modal->MultiValueEditor_values,
                            ).with_modal(None),
                            UnifiedTagEditorActionModel::Nothing,
                        )
                    } else {
                        (
                            self.with_modal(Some(values_step(modal, action))),
                            UnifiedTagEditorActionModel::Nothing,
                        )
                    }
                },
            },
        }
    }

    /// An input while the fields have the focus.
    pub open spec fn step_fields(self, action: InputAction) -> (Self, UnifiedTagEditorActionModel) {
        let nothing = UnifiedTagEditorActionModel::Nothing;
        let browsing = self.field_edit_state == FieldEditState::NonEditable;
        match action {
            InputAction::Cancel => if !browsing {
                (self.editing(FieldEditState::NonEditable), nothing)
            } else if self.has_changes() {
                (
                    self.with_modal(
                        Some(
                            UnifiedTagEditorModalModel::UnsavedChanges {
                                selected_button: UnsavedChangesButton::KeepEditing,
                            },
                        ),
                    ),
                    nothing,
                )
            } else if self.embedded() {
                (self, UnifiedTagEditorActionModel::CloseEmbedded)
            } else {
                (self, UnifiedTagEditorActionModel::DiscardTransaction)
            },
            InputAction::NavUp => (self.commit_if_editing().moved_up().load(), nothing),
            InputAction::NavDown => (self.commit_if_editing().moved_down().load(), nothing),
            InputAction::NavLeft => (
                if browsing {
                    EditorModel { focus_on_value: false, ..self }
                } else {
                    self
                },
                nothing,
            ),
            InputAction::NavRight => (
                if !browsing {
                    self
                } else if self.focus_on_value {
                    EditorModel { focus: UnifiedTagEditorFocus::Actions, ..self }
                } else {
                    EditorModel { focus_on_value: true, ..self }
                },
                nothing,
            ),
            InputAction::CycleNext => self.step_cycle(NavigationDirection::Next),
            InputAction::CyclePrev => self.step_cycle(NavigationDirection::Prev),
            InputAction::Confirm => (self.enter(), nothing),
            InputAction::Shortcut(c) => (
                self,
                if c == 'r' && !self.embedded() {
                    UnifiedTagEditorActionModel::RequestTransactionReview
                } else {
                    nothing
                },
            ),
            InputAction::KillToStart => (self.cleared(), nothing),
            InputAction::Char(c) => (
                if !browsing {
                    self.typed(c)
                } else if c == 'n' {
                    self.create_tag()
                } else {
                    self
                },
                nothing,
            ),
            InputAction::Backspace => (
                if browsing {
                    self.mark_switched()
                } else {
                    self.untyped()
                },
                nothing,
            ),
            InputAction::Delete => (
                if browsing {
                    self.mark_switched()
                } else {
                    self
                },
                nothing,
            ),
            _ => (self, nothing),
        }
    }

    /// The line above.
    pub open spec fn moved_up(self) -> Self {
        if self.current_field_idx > 0 {
            let at = (self.current_field_idx - 1) as usize;
            EditorModel {
                current_field_idx: at,
                field_scroll_offset: if at < self.field_scroll_offset {
                    at
                } else {
                    self.field_scroll_offset
                },
                ..self
            }
        } else {
            self
        }
    }

    /// The line below.
    pub open spec fn moved_down(self) -> Self {
        if self.current_field_idx + 1 < self.field_count() {
            let at = (self.current_field_idx + 1) as usize;
            EditorModel {
                current_field_idx: at,
                field_scroll_offset: scrolled_down(
                    at,
                    self.field_scroll_offset,
                    self.field_visible_height,
                ),
                ..self
            }
        } else {
            self
        }
    }

    /// Moving to another file. Changes that are not staged are asked about first.
    pub open spec fn step_cycle(self, direction: NavigationDirection) -> (
        Self,
        UnifiedTagEditorActionModel,
    ) {
        if self.aggregated() {
            (self, UnifiedTagEditorActionModel::Nothing)
        } else if self.unstaged() {
            (
                self.with_modal(
                    Some(
                        UnifiedTagEditorModalModel::StageChangesConfirm {
                            direction,
                            selected_button: StageChangesButton::Yes,
                        },
                    ),
                ),
                UnifiedTagEditorActionModel::Nothing,
            )
        } else {
            (
                self,
                match direction {
                    NavigationDirection::Next => UnifiedTagEditorActionModel::NextItem,
                    NavigationDirection::Prev => UnifiedTagEditorActionModel::PrevItem,
                },
            )
        }
    }

    /// What the review button does.
    pub open spec fn review(self) -> UnifiedTagEditorActionModel {
        match self.launch_mode {
            TagEditorLaunchModeModel::Embedded { decision_key, decision_label } => if self.mutations().len()
                == 0 {
                UnifiedTagEditorActionModel::CloseEmbedded
            } else {
                UnifiedTagEditorActionModel::StageAndCloseEmbedded {
                    decision_key,
                    decision_label,
                    mutations: self.mutations(),
                }
            },
            TagEditorLaunchModeModel::Standalone => if self.unstaged() {
                UnifiedTagEditorActionModel::StageDecisionAndReview {
                    key: key_of(self.mutations_in_hand()),
                    mutations: self.mutations_in_hand(),
                }
            } else if self.staged_decision_count > 0 {
                UnifiedTagEditorActionModel::RequestTransactionReview
            } else {
                UnifiedTagEditorActionModel::StatusMessage("No changes to review"@)
            },
        }
    }

    /// An input while the buttons have the focus.
    pub open spec fn step_actions(self, action: InputAction) -> (Self, UnifiedTagEditorActionModel) {
        let nothing = UnifiedTagEditorActionModel::Nothing;
        let at = self.button_place();
        match action {
            InputAction::NavLeft | InputAction::Cancel => (
                EditorModel { focus: UnifiedTagEditorFocus::TagFields, ..self },
                nothing,
            ),
            InputAction::NavUp => (
                if at > 0 {
                    EditorModel { selected_button: self.buttons()[at - 1], ..self }
                } else {
                    self
                },
                nothing,
            ),
            InputAction::NavDown => (
                if at + 1 < self.buttons().len() {
                    EditorModel { selected_button: self.buttons()[at + 1], ..self }
                } else {
                    self
                },
                nothing,
            ),
            InputAction::Confirm => match self.selected_button {
                TagEditorButton::ReviewAll => (self, self.review()),
                TagEditorButton::RevertThisFile => (
                    self.reverted(),
                    UnifiedTagEditorActionModel::StatusMessage("Changes reverted"@),
                ),
                TagEditorButton::FillFromDisk => (
                    self,
                    UnifiedTagEditorActionModel::RequestFillFromDisk,
                ),
                TagEditorButton::FillFromDb => (
                    self,
                    UnifiedTagEditorActionModel::RequestFillFromDb {
                        inode: match self.context.file_at(self.current_item_idx) {
                            Some(f) => Some(f.inode),
                            None => None,
                        },
                    },
                ),
            },
            _ => (self, nothing),
        }
    }

    /// The editor after an input, and what it asks for.
    pub open spec fn step(self, action: InputAction) -> (Self, UnifiedTagEditorActionModel) {
        if self.modal is Some {
            self.step_modal(action)
        } else {
            match self.focus {
                UnifiedTagEditorFocus::TagFields => self.step_fields(action),
                UnifiedTagEditorFocus::Actions => self.step_actions(action),
            }
        }
    }
}

/// A string without its last character.
pub open spec fn without_last(s: Seq<char>) -> Seq<char> {
    if s.len() == 0 {
        s
    } else {
        s.drop_last()
    }
}

/// The values of a tag without the one in hand. The entry that adds a value
/// stays.
pub open spec fn value_removed(modal: UnifiedTagEditorModalModel) -> UnifiedTagEditorModalModel {
    match modal {
        UnifiedTagEditorModalModel::MultiValueEditor {
            field_idx,
            values,
            current_value_idx,
            editing,
            edit_buffer,
        } => if current_value_idx < values.len() {
            UnifiedTagEditorModalModel::MultiValueEditor {
                field_idx,
                values: values.remove(current_value_idx as int),
                current_value_idx: if current_value_idx >= values.len() - 1 && values.len() > 1 {
                    (values.len() - 2) as usize
                } else {
                    current_value_idx
                },
                editing,
                edit_buffer,
            }
        } else {
            modal
        },
        _ => modal,
    }
}

/// An input while the values of a tag are open, other than the one that closes
/// the modal.
pub open spec fn values_step(
    modal: UnifiedTagEditorModalModel,
    action: InputAction,
) -> UnifiedTagEditorModalModel {
    match modal {
        UnifiedTagEditorModalModel::MultiValueEditor {
            field_idx,
            values,
            current_value_idx,
            editing,
            edit_buffer,
        } => {
            let at = current_value_idx;
            match action {
                InputAction::Cancel => UnifiedTagEditorModalModel::MultiValueEditor {
                    field_idx,
                    values,
                    current_value_idx,
                    editing: false,
                    edit_buffer: Seq::empty(),
                },
                InputAction::Confirm => if editing {
                    UnifiedTagEditorModalModel::MultiValueEditor {
                        field_idx,
                        values: if at < values.len() {
                            values.update(at as int, edit_buffer)
                        } else if at == values.len() && edit_buffer.len() != 0 {
                            values.push(edit_buffer)
                        } else {
                            values
                        },
                        current_value_idx,
                        editing: false,
                        edit_buffer: Seq::empty(),
                    }
                } else if at <= values.len() {
                    UnifiedTagEditorModalModel::MultiValueEditor {
                        field_idx,
                        values,
                        current_value_idx,
                        editing: true,
                        edit_buffer: if at < values.len() {
                            values[at as int]
                        } else {
                            Seq::empty()
                        },
                    }
                } else {
                    modal
                },
                InputAction::NavUp => UnifiedTagEditorModalModel::MultiValueEditor {
                    field_idx,
                    values,
                    current_value_idx: if !editing && at > 0 {
                        (at - 1) as usize
                    } else {
                        at
                    },
                    editing,
                    edit_buffer,
                },
                InputAction::NavDown => UnifiedTagEditorModalModel::MultiValueEditor {
                    field_idx,
                    values,
                    current_value_idx: if !editing && at < values.len() {
                        (at + 1) as usize
                    } else {
                        at
                    },
                    editing,
                    edit_buffer,
                },
                InputAction::Delete => if editing {
                    modal
                } else {
                    value_removed(modal)
                },
                InputAction::Backspace => if editing {
                    UnifiedTagEditorModalModel::MultiValueEditor {
                        field_idx,
                        values,
                        current_value_idx,
                        editing,
                        edit_buffer: without_last(edit_buffer),
                    }
                } else {
                    value_removed(modal)
                },
                InputAction::Char(c) if editing => UnifiedTagEditorModalModel::MultiValueEditor {
                    field_idx,
                    values,
                    current_value_idx,
                    editing,
                    edit_buffer: edit_buffer.push(c),
                },
                _ => modal,
            }
        },
        _ => modal,
    }
}

} // verus!
