//! How the directory editor answers keys.

use vstd::prelude::*;

use crate::input::{KeyCode, KeyEvent};
use crate::tag_editor::directory_state::{DirectoryModel, DirectoryTagEditorAction, DirectoryTagEditorActionModel, DirectoryTagEditorFocus, DirectoryTagEditorModal, DirectoryTagEditorState, GatheringModel};
use crate::tag_editor::types::FieldEditState;

verus! {

impl DirectoryModel {
    /// Moving to another directory. Changes are asked about first.
    pub open spec fn switching(self, next: bool) -> DirectoryTagEditorActionModel {
        if self.has_changes() {
            DirectoryTagEditorActionModel::ShowModal(
                DirectoryTagEditorModal::UnsavedChanges { going_next: next },
            )
        } else {
            DirectoryTagEditorActionModel::SwitchDirectory(next)
        }
    }

    /// A key while the button has the focus.
    pub open spec fn action_key_step(self, key: KeyEvent) -> (Self, DirectoryTagEditorActionModel) {
        match key.code {
            KeyCode::Left | KeyCode::Esc => (
                DirectoryModel { focus: DirectoryTagEditorFocus::TagFields, ..self },
                DirectoryTagEditorActionModel::Nothing,
            ),
            KeyCode::Enter => (
                self,
                if self.changes().len() == 0 {
                    DirectoryTagEditorActionModel::StatusMessage("No changes to save"@)
                } else {
                    DirectoryTagEditorActionModel::ShowModal(
                        DirectoryTagEditorModal::ChangePreview {
                            scroll_offset: 0,
                            save_and_next: false,
                        },
                    )
                },
            ),
            _ => (self, DirectoryTagEditorActionModel::Nothing),
        }
    }

    /// A key while the fields have the focus.
    pub open spec fn field_key_step(self, key: KeyEvent) -> (Self, DirectoryTagEditorActionModel) {
        let nothing = DirectoryTagEditorActionModel::Nothing;
        match key.code {
            KeyCode::Esc => self.escape(),
            KeyCode::Up => (self.moved_up(), nothing),
            KeyCode::Down => (self.moved_down(), nothing),
            KeyCode::Right => (
                if self.field_edit_state == FieldEditState::NonEditable {
                    DirectoryModel { focus: DirectoryTagEditorFocus::ActionPane, ..self }
                } else {
                    self
                },
                nothing,
            ),
            KeyCode::Tab => (self, self.switching(!key.shift)),
            KeyCode::BackTab => (self, self.switching(false)),
            KeyCode::Enter => (self.enter(), nothing),
            KeyCode::Char(c) => (
                if c == 'u' && key.control {
                    self.cleared()
                } else {
                    self.typed(c)
                },
                nothing,
            ),
            KeyCode::Backspace => (self.untyped(), nothing),
            _ => (self, nothing),
        }
    }

    /// The editor after a key, and what it asks for. While files are being
    /// gathered only Esc counts, and calls the gathering off.
    pub open spec fn key_step(self, key: KeyEvent) -> (Self, DirectoryTagEditorActionModel) {
        match self.gathering_state {
            Some(g) => if key.code == KeyCode::Esc {
                (
                    DirectoryModel {
                        gathering_state: Some(GatheringModel { cancelled: true, ..g }),
                        ..self
                    },
                    DirectoryTagEditorActionModel::Exit,
                )
            } else {
                (self, DirectoryTagEditorActionModel::Nothing)
            },
            None => match self.focus {
                DirectoryTagEditorFocus::ActionPane => self.action_key_step(key),
                DirectoryTagEditorFocus::TagFields => self.field_key_step(key),
            },
        }
    }
}

impl DirectoryTagEditorState {
    /// Answers a key.
    pub fn handle_key(&mut self, key: KeyEvent) -> (r: DirectoryTagEditorAction)
        ensures
            (final(self)@, r.deep_view()) == old(self)@.key_step(key),
    {
        if self.is_gathering() {
            if key.code == KeyCode::Esc {
                self.cancel_gathering();
                return DirectoryTagEditorAction::Exit;
            }
            return DirectoryTagEditorAction::Nothing;
        }
        if self.focus == DirectoryTagEditorFocus::ActionPane {
            return self.handle_action_pane_key(key);
        }
        match key.code {
            KeyCode::Esc => self.handle_escape(),
            KeyCode::Up => {
                self.move_up();
                DirectoryTagEditorAction::Nothing
            },
            KeyCode::Down => {
                self.move_down();
                DirectoryTagEditorAction::Nothing
            },
            KeyCode::Right => {
                if self.field_edit_state == FieldEditState::NonEditable {
                    self.focus = DirectoryTagEditorFocus::ActionPane;
                }
                DirectoryTagEditorAction::Nothing
            },
            KeyCode::Tab => self.switch(!key.shift),
            KeyCode::BackTab => self.switch(false),
            KeyCode::Enter => self.handle_enter(),
            KeyCode::Char(c) => {
                if c == 'u' && key.control {
                    self.clear_current_field();
                } else {
                    self.insert_char(c);
                }
                DirectoryTagEditorAction::Nothing
            },
            KeyCode::Backspace => {
                self.delete_char();
                DirectoryTagEditorAction::Nothing
            },
            _ => DirectoryTagEditorAction::Nothing,
        }
    }

    /// Moves to another directory, or asks about changes.
    fn switch(&self, next: bool) -> (r: DirectoryTagEditorAction)
        ensures
            r.deep_view() == self@.switching(next),
    {
        if self.has_changes() {
            DirectoryTagEditorAction::ShowModal(
                DirectoryTagEditorModal::UnsavedChanges { going_next: next },
            )
        } else {
            DirectoryTagEditorAction::SwitchDirectory(next)
        }
    }

    fn handle_action_pane_key(&mut self, key: KeyEvent) -> (r: DirectoryTagEditorAction)
        ensures
            (final(self)@, r.deep_view()) == old(self)@.action_key_step(key),
    {
        match key.code {
            KeyCode::Left | KeyCode::Esc => {
                self.focus = DirectoryTagEditorFocus::TagFields;
                DirectoryTagEditorAction::Nothing
            },
            KeyCode::Enter => {
                if self.compute_changes().len() == 0 {
                    DirectoryTagEditorAction::StatusMessage("No changes to save".to_owned())
                } else {
                    DirectoryTagEditorAction::ShowModal(
                        DirectoryTagEditorModal::ChangePreview {
                            scroll_offset: 0,
                            save_and_next: false,
                        },
                    )
                }
            },
            _ => DirectoryTagEditorAction::Nothing,
        }
    }
}

/// The directory is not left with changes in it unless the operator was asked,
/// and never while files are gathered.
pub proof fn law_switching_asks_about_changes(m: DirectoryModel, key: KeyEvent)
    requires
        m.key_step(key).1 is SwitchDirectory,
    ensures
        !m.has_changes(),
        m.gathering_state is None,
{
}

/// While files are gathered, keys change nothing but whether it goes on.
pub proof fn law_gathering_takes_only_escape(m: DirectoryModel, key: KeyEvent)
    requires
        m.gathering_state is Some,
    ensures
        key.code != KeyCode::Esc ==> m.key_step(key) == (m, DirectoryTagEditorActionModel::Nothing),
        key.code == KeyCode::Esc ==> m.key_step(key).1 is Exit
            && m.key_step(key).0.gathering_state->0.cancelled && m.key_step(key).0.files == m.files,
{
}

/// The preview is shown only where there are changes.
pub proof fn law_preview_has_changes(m: DirectoryModel, key: KeyEvent)
    requires
        m.key_step(key).1 matches DirectoryTagEditorActionModel::ShowModal(modal)
            && modal is ChangePreview,
    ensures
        m.changes().len() > 0,
{
}

} // verus!
