//! How the tag editor answers input.

use vstd::prelude::*;

use crate::corpus::{DecisionKey, DecisionSource, Mutation};
use crate::input::InputAction;
use crate::lists::{first_place, remove_item, set_item};
use crate::screen::put;
use crate::tag_editor::field_editing::scroll_down;
use crate::tag_editor::model::{values_step, EditorModel};
use crate::tag_editor::state::UnifiedTagEditorState;
use crate::tag_editor::types::{FieldEditState, NavigationDirection, StageChangesButton, TagEditorButton, TagEditorLaunchMode, UnifiedTagEditorAction, UnifiedTagEditorActionModel, UnifiedTagEditorFocus, UnifiedTagEditorModal, UnifiedTagEditorModalModel, UnsavedChangesButton};

verus! {

/// The values of a tag while they are open, with what is being typed.
fn values_input(
    field_idx: usize,
    values: Vec<String>,
    current_value_idx: usize,
    editing: bool,
    edit_buffer: String,
    action: &InputAction,
) -> (r: UnifiedTagEditorModal)
    ensures
        r.deep_view() == values_step(
            UnifiedTagEditorModalModel::MultiValueEditor {
                field_idx,
                values: values.deep_view(),
                current_value_idx,
                editing,
                edit_buffer: edit_buffer@,
            },
            *action,
        ),
{
    let mut values = values;
    let mut at: usize = current_value_idx;
    let mut editing: bool = editing;
    let mut edit_buffer = edit_buffer;
    match action {
        InputAction::Cancel => {
            editing = false;
            edit_buffer.clear();
        },
        InputAction::Confirm => {
            if editing {
                if at < values.len() {
                    set_item(&mut values, at, edit_buffer.clone());
                } else if at == values.len() && !edit_buffer.as_str().is_empty() {
                    put(&mut values, edit_buffer.clone());
                }
                editing = false;
                edit_buffer.clear();
            } else if at < values.len() {
                editing = true;
                edit_buffer = values[at].clone();
            } else if at == values.len() {
                editing = true;
                edit_buffer.clear();
            }
        },
        InputAction::NavUp => {
            if !editing && at > 0 {
                at = at - 1;
            }
        },
        InputAction::NavDown => {
            if !editing && at < values.len() {
                at = at + 1;
            }
        },
        InputAction::Delete | InputAction::Backspace => {
            if !editing {
                if at < values.len() {
                    remove_item(&mut values, at);
                    if at >= values.len() && values.len() > 0 {
                        at = values.len() - 1;
                    }
                }
            } else if let InputAction::Backspace = action {
                let _ = edit_buffer.pop();
            }
        },
        InputAction::Char(c) => {
            if editing {
                edit_buffer.push(*c);
            }
        },
        _ => {},
    }
    UnifiedTagEditorModal::MultiValueEditor {
        field_idx,
        values,
        current_value_idx: at,
        editing,
        edit_buffer,
    }
}

impl UnifiedTagEditorState {
    /// Answers an input.
    pub fn handle_input(&mut self, action: &InputAction) -> (r: UnifiedTagEditorAction)
        ensures
            (final(self)@, r.deep_view()) == old(self)@.step(*action),
    {
        if self.modal.is_some() {
            self.handle_modal_input(action)
        } else {
            match self.focus {
                UnifiedTagEditorFocus::TagFields => self.handle_tag_fields_input(action),
                UnifiedTagEditorFocus::Actions => self.handle_actions_input(action),
            }
        }
    }

    fn handle_modal_input(&mut self, action: &InputAction) -> (r: UnifiedTagEditorAction)
        ensures
            (final(self)@, r.deep_view()) == old(self)@.step_modal(*action),
    {
        match self.modal.take() {
            None => UnifiedTagEditorAction::Nothing,
            Some(UnifiedTagEditorModal::UnsavedChanges { selected_button }) => self.handle_unsaved_input(
                selected_button,
                action,
            ),
            Some(UnifiedTagEditorModal::StageChangesConfirm { direction, selected_button }) => self.handle_staging_input(
                direction,
                selected_button,
                action,
            ),
            Some(
                UnifiedTagEditorModal::MultiValueEditor {
                    field_idx,
                    values,
                    current_value_idx,
                    editing,
                    edit_buffer,
                },
            ) => {
                let closes: bool = match action {
                    InputAction::Cancel => !editing,
                    _ => false,
                };
                if closes {
                    self.apply_multi_value_changes(field_idx, values);
                } else {
                    self.modal = Some(
                        values_input(
                            field_idx,
                            values,
                            current_value_idx,
                            editing,
                            edit_buffer,
                            action,
                        ),
                    );
                }
                UnifiedTagEditorAction::Nothing
            },
        }
    }

    /// Answers an input to the modal on unsaved changes, which was taken out.
    fn handle_unsaved_input(&mut self, selected: UnsavedChangesButton, action: &InputAction) -> (r:
        UnifiedTagEditorAction)
        requires
            old(self)@.modal is None,
        ensures
            (final(self)@, r.deep_view()) == old(self)@.with_modal(
                Some(UnifiedTagEditorModalModel::UnsavedChanges { selected_button: selected }),
            ).step_unsaved(selected, *action),
    {
        match action {
            InputAction::Confirm => match selected {
                UnsavedChangesButton::KeepEditing => UnifiedTagEditorAction::CloseModal,
                UnsavedChangesButton::DiscardAndProceed => {
                    self.drop_changes_for_current_item();
                    if self.is_embedded() {
                        UnifiedTagEditorAction::CloseEmbedded
                    } else {
                        UnifiedTagEditorAction::DiscardTransaction
                    }
                },
            },
            InputAction::Cancel => UnifiedTagEditorAction::CloseModal,
            InputAction::NavLeft | InputAction::NavRight | InputAction::CycleNext => {
                let other: UnsavedChangesButton = match selected {
                    UnsavedChangesButton::KeepEditing => UnsavedChangesButton::DiscardAndProceed,
                    UnsavedChangesButton::DiscardAndProceed => UnsavedChangesButton::KeepEditing,
                };
                self.modal = Some(
                    UnifiedTagEditorModal::UnsavedChanges { selected_button: other },
                );
                UnifiedTagEditorAction::Nothing
            },
            _ => {
                self.modal = Some(
                    UnifiedTagEditorModal::UnsavedChanges { selected_button: selected },
                );
                UnifiedTagEditorAction::Nothing
            },
        }
    }

    /// Answers an input to the modal on staging, which was taken out.
    fn handle_staging_input(
        &mut self,
        direction: NavigationDirection,
        selected: StageChangesButton,
        action: &InputAction,
    ) -> (r: UnifiedTagEditorAction)
        requires
            old(self)@.modal is None,
        ensures
            (final(self)@, r.deep_view()) == old(self)@.with_modal(
                Some(
                    UnifiedTagEditorModalModel::StageChangesConfirm {
                        direction,
                        selected_button: selected,
                    },
                ),
            ).step_staging(direction, selected, *action),
    {
        let next: StageChangesButton = match action {
            InputAction::Confirm => {
                return match selected {
                    StageChangesButton::Yes => {
                        let mutations: Vec<Mutation> = self.generate_mutations_for_current_item();
                        let item: String = self.decision_key_item(&mutations);
                        UnifiedTagEditorAction::StageDecisionAndNavigate {
                            key: DecisionKey::new(DecisionSource::TagEdit, item),
                            mutations,
                            direction,
                        }
                    },
                    StageChangesButton::No => match direction {
                        NavigationDirection::Next => UnifiedTagEditorAction::NextItem,
                        NavigationDirection::Prev => UnifiedTagEditorAction::PrevItem,
                    },
                    StageChangesButton::Cancel => UnifiedTagEditorAction::CloseModal,
                };
            },
            InputAction::Cancel => {
                return UnifiedTagEditorAction::CloseModal;
            },
            InputAction::NavLeft => match selected {
                StageChangesButton::Yes => StageChangesButton::Yes,
                StageChangesButton::No => StageChangesButton::Yes,
                StageChangesButton::Cancel => StageChangesButton::No,
            },
            InputAction::NavRight | InputAction::CycleNext => match selected {
                StageChangesButton::Yes => StageChangesButton::No,
                StageChangesButton::No => StageChangesButton::Cancel,
                StageChangesButton::Cancel => StageChangesButton::Cancel,
            },
            _ => selected,
        };
        self.modal = Some(
            UnifiedTagEditorModal::StageChangesConfirm { direction, selected_button: next },
        );
        UnifiedTagEditorAction::Nothing
    }

    /// Moves to the line above.
    fn move_up(&mut self)
        ensures
            final(self)@ == old(self)@.moved_up(),
    {
        if self.current_field_idx > 0 {
            self.current_field_idx = self.current_field_idx - 1;
            if self.current_field_idx < self.field_scroll_offset {
                self.field_scroll_offset = self.current_field_idx;
            }
        }
    }

    /// Moves to the line below.
    fn move_down(&mut self)
        ensures
            final(self)@ == old(self)@.moved_down(),
    {
        let n: usize = if self.is_aggregated_mode() {
            match &self.aggregated_fields {
                Some(f) => f.len(),
                None => 0,
            }
        } else if self.current_item_idx < self.tag_fields.len() {
            self.tag_fields[self.current_item_idx].len()
        } else {
            0
        };
        if n > 0 && self.current_field_idx < n - 1 {
            self.current_field_idx = self.current_field_idx + 1;
            self.field_scroll_offset = scroll_down(
                self.current_field_idx,
                self.field_scroll_offset,
                self.field_visible_height,
            );
        }
    }

    /// Moves to another file, or asks about changes that are not staged.
    fn cycle(&mut self, direction: NavigationDirection) -> (r: UnifiedTagEditorAction)
        ensures
            (final(self)@, r.deep_view()) == old(self)@.step_cycle(direction),
    {
        if self.is_aggregated_mode() {
            UnifiedTagEditorAction::Nothing
        } else if self.has_changes_for_current_item() && !self.changes_match_staged() {
            self.modal = Some(
                UnifiedTagEditorModal::StageChangesConfirm {
                    direction,
                    selected_button: StageChangesButton::Yes,
                },
            );
            UnifiedTagEditorAction::Nothing
        } else {
            match direction {
                NavigationDirection::Next => UnifiedTagEditorAction::NextItem,
                NavigationDirection::Prev => UnifiedTagEditorAction::PrevItem,
            }
        }
    }

    fn handle_tag_fields_input(&mut self, action: &InputAction) -> (r: UnifiedTagEditorAction)
        ensures
            (final(self)@, r.deep_view()) == old(self)@.step_fields(*action),
    {
        let browsing: bool = self.field_edit_state == FieldEditState::NonEditable;
        match action {
            InputAction::Cancel => {
                if !browsing {
                    self.field_edit_state = FieldEditState::NonEditable;
                    UnifiedTagEditorAction::Nothing
                } else if self.has_changes_for_current_item() {
                    self.modal = Some(
                        UnifiedTagEditorModal::UnsavedChanges {
                            selected_button: UnsavedChangesButton::KeepEditing,
                        },
                    );
                    UnifiedTagEditorAction::Nothing
                } else if self.is_embedded() {
                    UnifiedTagEditorAction::CloseEmbedded
                } else {
                    UnifiedTagEditorAction::DiscardTransaction
                }
            },
            InputAction::NavUp => {
                if !browsing {
                    self.commit_field_buffer();
                }
                self.move_up();
                self.load_field_buffer();
                UnifiedTagEditorAction::Nothing
            },
            InputAction::NavDown => {
                if !browsing {
                    self.commit_field_buffer();
                }
                self.move_down();
                self.load_field_buffer();
                UnifiedTagEditorAction::Nothing
            },
            InputAction::NavLeft => {
                if browsing {
                    self.focus_on_value = false;
                }
                UnifiedTagEditorAction::Nothing
            },
            InputAction::NavRight => {
                if browsing {
                    if self.focus_on_value {
                        self.focus = UnifiedTagEditorFocus::Actions;
                    } else {
                        self.focus_on_value = true;
                    }
                }
                UnifiedTagEditorAction::Nothing
            },
            InputAction::CycleNext => self.cycle(NavigationDirection::Next),
            InputAction::CyclePrev => self.cycle(NavigationDirection::Prev),
            InputAction::Confirm => {
                self.handle_field_enter();
                UnifiedTagEditorAction::Nothing
            },
            InputAction::Shortcut(c) => if *c == 'r' && !self.is_embedded() {
                UnifiedTagEditorAction::RequestTransactionReview
            } else {
                UnifiedTagEditorAction::Nothing
            },
            InputAction::KillToStart => {
                self.clear_current_field();
                UnifiedTagEditorAction::Nothing
            },
            InputAction::Char(c) => {
                if !browsing {
                    self.insert_char(*c);
                } else if *c == 'n' {
                    self.create_new_tag();
                }
                UnifiedTagEditorAction::Nothing
            },
            InputAction::Backspace => {
                if browsing {
                    self.toggle_current_field_deleted();
                } else {
                    self.delete_char();
                }
                UnifiedTagEditorAction::Nothing
            },
            InputAction::Delete => {
                if browsing {
                    self.toggle_current_field_deleted();
                }
                UnifiedTagEditorAction::Nothing
            },
            _ => UnifiedTagEditorAction::Nothing,
        }
    }

    /// The place of the button in hand, or 0 where it is not offered.
    fn button_place(&self, buttons: &Vec<TagEditorButton>) -> (r: usize)
        requires
            buttons@ == self@.buttons(),
        ensures
            r == self@.button_place(),
            r < buttons.len(),
    {
        let ghost p = |b: TagEditorButton| b == self@.selected_button;
        let mut i: usize = 0;
        while i < buttons.len() && buttons[i] != self.selected_button
            invariant
                i <= buttons.len(),
                p == (|b: TagEditorButton| b == self@.selected_button),
                first_place(buttons@, 0, p) == first_place(buttons@, i as nat, p),
            decreases buttons.len() - i,
        {
            i = i + 1;
        }
        if i < buttons.len() {
            i
        } else {
            0
        }
    }

    /// Does what the review button does.
    fn review(&self) -> (r: UnifiedTagEditorAction)
        ensures
            r.deep_view() == self@.review(),
    {
        match &self.launch_mode {
            TagEditorLaunchMode::Embedded { decision_key, decision_label } => {
                let mutations: Vec<Mutation> = self.collect_all_mutations();
                if mutations.len() == 0 {
                    UnifiedTagEditorAction::CloseEmbedded
                } else {
                    UnifiedTagEditorAction::StageAndCloseEmbedded {
                        decision_key: decision_key.clone(),
                        decision_label: decision_label.clone(),
                        mutations,
                    }
                }
            },
            TagEditorLaunchMode::Standalone => {
                if self.has_changes_for_current_item() && !self.changes_match_staged() {
                    let mutations: Vec<Mutation> = self.generate_mutations_for_current_item();
                    let item: String = self.decision_key_item(&mutations);
                    UnifiedTagEditorAction::StageDecisionAndReview {
                        key: DecisionKey::new(DecisionSource::TagEdit, item),
                        mutations,
                    }
                } else if self.staged_decision_count > 0 {
                    UnifiedTagEditorAction::RequestTransactionReview
                } else {
                    UnifiedTagEditorAction::StatusMessage("No changes to review".to_owned())
                }
            },
        }
    }

    fn handle_actions_input(&mut self, action: &InputAction) -> (r: UnifiedTagEditorAction)
        ensures
            (final(self)@, r.deep_view()) == old(self)@.step_actions(*action),
    {
        let buttons: Vec<TagEditorButton> = self.available_buttons();
        let at: usize = self.button_place(&buttons);
        match action {
            InputAction::NavLeft | InputAction::Cancel => {
                self.focus = UnifiedTagEditorFocus::TagFields;
                UnifiedTagEditorAction::Nothing
            },
            InputAction::NavUp => {
                if at > 0 {
                    self.selected_button = buttons[at - 1];
                }
                UnifiedTagEditorAction::Nothing
            },
            InputAction::NavDown => {
                if at + 1 < buttons.len() {
                    self.selected_button = buttons[at + 1];
                }
                UnifiedTagEditorAction::Nothing
            },
            InputAction::Confirm => match self.selected_button {
                TagEditorButton::ReviewAll => self.review(),
                TagEditorButton::RevertThisFile => {
                    self.drop_changes_for_current_item();
                    UnifiedTagEditorAction::StatusMessage("Changes reverted".to_owned())
                },
                TagEditorButton::FillFromDisk => UnifiedTagEditorAction::RequestFillFromDisk,
                TagEditorButton::FillFromDb => {
                    let inode: Option<i64> = match self.get_current_audio_file() {
                        Some(f) => Some(f.inode()),
                        None => None,
                    };
                    UnifiedTagEditorAction::RequestFillFromDb { inode }
                },
            },
            _ => UnifiedTagEditorAction::Nothing,
        }
    }
}

// ---------------------------------------------------------------------------
// Laws
// ---------------------------------------------------------------------------

/// Whether an action stages a decision.
pub open spec fn stages(a: UnifiedTagEditorActionModel) -> bool {
    a is StageDecisionAndNavigate || a is StageDecisionAndReview || a is StageAndCloseEmbedded
}

/// Nothing is staged but by Enter.
pub proof fn law_only_enter_stages(m: EditorModel, action: InputAction)
    requires
        stages(m.step(action).1),
    ensures
        action is Confirm,
{
}

/// What is staged is what the changes ask for.
pub proof fn law_staged_is_what_changed(m: EditorModel, action: InputAction)
    ensures
        m.step(action).1 matches UnifiedTagEditorActionModel::StageDecisionAndReview {
            mutations,
            ..
        } ==> mutations == m.mutations_in_hand(),
        m.step(action).1 matches UnifiedTagEditorActionModel::StageDecisionAndNavigate {
            mutations,
            ..
        } ==> mutations == m.mutations_in_hand(),
        m.step(action).1 matches UnifiedTagEditorActionModel::StageAndCloseEmbedded {
            mutations,
            ..
        } ==> mutations == m.mutations() && mutations.len() > 0,
{
}

/// An editor inside another view never touches that view's transaction: it
/// neither discards it nor opens its review.
pub proof fn law_embedded_leaves_transaction_alone(m: EditorModel, action: InputAction)
    requires
        m.embedded(),
    ensures
        !(m.step(action).1 is DiscardTransaction),
        !(m.step(action).1 is RequestTransactionReview),
        !(m.step(action).1 is StageDecisionAndReview),
{
}

/// Esc closes the modal on unsaved changes without discarding anything.
pub proof fn law_escape_keeps_editing(m: EditorModel)
    requires
        m.modal is Some,
        m.modal->0 is UnsavedChanges,
    ensures
        m.step(InputAction::Cancel) == (
            m.with_modal(None),
            UnifiedTagEditorActionModel::CloseModal,
        ),
{
}

/// A stuck Enter on leaving discards nothing: the modal opens on the button
/// that keeps editing.
pub proof fn law_leaving_asks_first(m: EditorModel)
    requires
        m.modal is None,
        m.focus == UnifiedTagEditorFocus::TagFields,
        m.field_edit_state == FieldEditState::NonEditable,
        m.has_changes(),
    ensures
        m.step(InputAction::Cancel).0.step(InputAction::Confirm) == (
            m,
            UnifiedTagEditorActionModel::CloseModal,
        ),
{
    let asked = m.step(InputAction::Cancel).0;
    assert(asked.with_modal(None) == m);
}

/// Whether two states of the editor have the same originals, files, file in
/// hand and owner of the transaction.
pub open spec fn same_subject(a: EditorModel, b: EditorModel) -> bool {
    &&& a.original_tag_fields == b.original_tag_fields
    &&& a.context == b.context
    &&& a.current_item_idx == b.current_item_idx
    &&& a.launch_mode == b.launch_mode
}

proof fn lemma_modal_keeps_subject(m: EditorModel, action: InputAction)
    ensures
        same_subject(m.step_modal(action).0, m),
{
}

proof fn lemma_actions_keep_subject(m: EditorModel, action: InputAction)
    ensures
        same_subject(m.step_actions(action).0, m),
{
}

proof fn lemma_edits_keep_subject(m: EditorModel, c: char)
    ensures
        same_subject(m.load(), m),
        same_subject(m.commit(), m),
        same_subject(m.create_tag(), m),
        same_subject(m.open_values(), m),
        same_subject(m.cleared(), m),
        same_subject(m.mark_switched(), m),
        same_subject(m.typed(c), m),
        same_subject(m.untyped(), m),
{
}

proof fn lemma_enter_keeps_subject(m: EditorModel)
    ensures
        same_subject(m.enter(), m),
{
    lemma_edits_keep_subject(m, ' ');
    lemma_edits_keep_subject(m.editing(FieldEditState::EditingName), ' ');
    lemma_edits_keep_subject(m.editing(FieldEditState::EditingValue), ' ');
}

proof fn lemma_fields_keep_subject(m: EditorModel, action: InputAction)
    ensures
        same_subject(m.step_fields(action).0, m),
{
    lemma_enter_keeps_subject(m);
    lemma_edits_keep_subject(m, ' ');
    lemma_edits_keep_subject(m.commit_if_editing().moved_up(), ' ');
    lemma_edits_keep_subject(m.commit_if_editing().moved_down(), ' ');
    match action {
        InputAction::Char(c) => {
            lemma_edits_keep_subject(m, c);
        },
        _ => {},
    }
}

/// No input changes what the fields are compared with, nor the files that are
/// edited, nor the file in hand, nor who owns the transaction.
pub proof fn law_input_keeps_originals(m: EditorModel, action: InputAction)
    ensures
        same_subject(m.step(action).0, m),
{
    lemma_modal_keeps_subject(m, action);
    lemma_actions_keep_subject(m, action);
    lemma_fields_keep_subject(m, action);
}

/// In the modal with all values, the place in hand stays at a value or at the
/// entry that adds one.
pub proof fn law_value_place_stays(modal: UnifiedTagEditorModalModel, action: InputAction)
    requires
        modal is MultiValueEditor,
        modal->MultiValueEditor_current_value_idx <= modal->MultiValueEditor_values.len(),
        modal->MultiValueEditor_values.len() < usize::MAX,
    ensures
        values_step(modal, action)->MultiValueEditor_current_value_idx <= values_step(
            modal,
            action,
        )->MultiValueEditor_values.len(),
{
}

} // verus!
