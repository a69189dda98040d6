//! How the modal answers input.

use vstd::prelude::*;

use crate::input::InputAction;
use crate::tag_canonicity_v2::types::{CanonicityV2Model, FocusPaneV2, TagCanonicalityStateV2};
use crate::text_input::TextInputModel;

verus! {

/// What the modal asks for.
#[derive(Debug, Clone, Copy, PartialEq, Eq, Structural)]
pub enum TagCanonicalityActionV2 {
    /// Nothing
    Nothing,
    /// Stage the decision and go on
    Confirmed,
    /// Leave
    Cancelled,
    /// Go to another group; nothing is staged
    Navigate {
        /// To the next one
        forward: bool,
    },
    /// Show all decisions
    ShowReview,
    /// The variants are right as they are
    FlagCanonical,
    /// The album is no compilation
    FlagNonCompilation,
    /// Edit the tags of each file
    OpenTagEditorIndividual,
    /// Edit the tags of all files together
    OpenTagEditorAggregated,
}

impl CanonicityV2Model {
    /// The modal, with an input handed to the text field.
    pub open spec fn typed(self, action: InputAction) -> Self {
        CanonicityV2Model { canonical_input: self.canonical_input.step(action), ..self }
    }

    /// Whether the text field is in hand.
    pub open spec fn typing(self) -> bool {
        self.focus_pane == FocusPaneV2::Variants && self.variant_cursor == -1
    }

    /// Whether the list of variants is in hand.
    pub open spec fn choosing(self) -> bool {
        self.focus_pane == FocusPaneV2::Variants && self.variant_cursor >= 0
    }

    /// The answer while it is being asked whether the variants are to stand.
    pub open spec fn flag_step(self, action: InputAction) -> (
        CanonicityV2Model,
        TagCanonicalityActionV2,
    ) {
        let asked = CanonicityV2Model { flag_confirmation_pending: false, ..self };
        match action {
            InputAction::Confirm => (
                asked,
                if self.is_album_artist_mode {
                    TagCanonicalityActionV2::FlagNonCompilation
                } else {
                    TagCanonicalityActionV2::FlagCanonical
                },
            ),
            InputAction::Cancel => (asked, TagCanonicalityActionV2::Nothing),
            _ => (self, TagCanonicalityActionV2::Nothing),
        }
    }

    /// The modal after a character that is not typed into the text field.
    pub open spec fn char_step(self, c: char) -> (CanonicityV2Model, TagCanonicalityActionV2) {
        if (c == 'f' || c == 'F') && self.choosing() {
            (
                if self.variant_cursor < self.data.variants.len() {
                    CanonicityV2Model {
                        canonical_input: self.canonical_input.with_value(
                            self.data.variants[self.variant_cursor as int].value,
                        ),
                        ..self
                    }
                } else {
                    self
                },
                TagCanonicalityActionV2::Nothing,
            )
        } else if c == 'e' || c == 'E' {
            (
                CanonicityV2Model {
                    variant_cursor: -1i32,
                    canonical_input: TextInputModel { focused: true, ..self.canonical_input },
                    focus_pane: FocusPaneV2::Variants,
                    ..self
                },
                TagCanonicalityActionV2::Nothing,
            )
        } else if c == 't' {
            (self, TagCanonicalityActionV2::OpenTagEditorIndividual)
        } else if c == 'T' {
            (self, TagCanonicalityActionV2::OpenTagEditorAggregated)
        } else {
            (self, TagCanonicalityActionV2::Nothing)
        }
    }

    /// The answer to an input.
    pub open spec fn step(self, action: InputAction) -> (
        CanonicityV2Model,
        TagCanonicalityActionV2,
    ) {
        if self.flag_confirmation_pending {
            self.flag_step(action)
        } else {
            match action {
                InputAction::FlagValue => (
                    CanonicityV2Model { flag_confirmation_pending: true, ..self },
                    TagCanonicalityActionV2::Nothing,
                ),
                InputAction::NavLeft => (
                    if self.typing() {
                        self.typed(action)
                    } else {
                        CanonicityV2Model { focus_pane: FocusPaneV2::Variants, ..self }
                    },
                    TagCanonicalityActionV2::Nothing,
                ),
                InputAction::NavRight => (
                    if self.typing() {
                        self.typed(action)
                    } else {
                        CanonicityV2Model { focus_pane: FocusPaneV2::Files, ..self }
                    },
                    TagCanonicalityActionV2::Nothing,
                ),
                InputAction::NavUp => (
                    match self.focus_pane {
                        FocusPaneV2::Variants => self.variant_up(),
                        FocusPaneV2::Files => self.file_up(),
                    },
                    TagCanonicalityActionV2::Nothing,
                ),
                InputAction::NavDown => (
                    match self.focus_pane {
                        FocusPaneV2::Variants => self.variant_down(),
                        FocusPaneV2::Files => self.file_down(),
                    },
                    TagCanonicalityActionV2::Nothing,
                ),
                InputAction::Confirm => (
                    self,
                    if self.ready() {
                        TagCanonicalityActionV2::Confirmed
                    } else {
                        TagCanonicalityActionV2::Nothing
                    },
                ),
                InputAction::CycleNext => (
                    self,
                    TagCanonicalityActionV2::Navigate { forward: true },
                ),
                InputAction::CyclePrev => (
                    self,
                    TagCanonicalityActionV2::Navigate { forward: false },
                ),
                InputAction::Cancel => (self, TagCanonicalityActionV2::Cancelled),
                _ => if action == InputAction::Shortcut('r') {
                    (self, TagCanonicalityActionV2::ShowReview)
                } else if self.typing() {
                    (self.typed(action), TagCanonicalityActionV2::Nothing)
                } else {
                    match action {
                        InputAction::Toggle => (
                            if self.choosing() {
                                self.toggled_here()
                            } else {
                                self
                            },
                            TagCanonicalityActionV2::Nothing,
                        ),
                        InputAction::Char(c) => self.char_step(c),
                        _ => (self, TagCanonicalityActionV2::Nothing),
                    }
                },
            }
        }
    }
}

impl TagCanonicalityStateV2 {
    fn handle_flag_input(&mut self, action: &InputAction) -> (r: TagCanonicalityActionV2)
        ensures
            (final(self)@, r) == old(self)@.flag_step(*action),
    {
        match action {
            InputAction::Confirm => {
                self.flag_confirmation_pending = false;
                if self.is_album_artist_mode {
                    TagCanonicalityActionV2::FlagNonCompilation
                } else {
                    TagCanonicalityActionV2::FlagCanonical
                }
            },
            InputAction::Cancel => {
                self.flag_confirmation_pending = false;
                TagCanonicalityActionV2::Nothing
            },
            _ => TagCanonicalityActionV2::Nothing,
        }
    }

    fn handle_char(&mut self, c: char) -> (r: TagCanonicalityActionV2)
        requires
            old(self)@.wf(),
        ensures
            (final(self)@, r) == old(self)@.char_step(c),
            final(self)@.wf(),
    {
        if (c == 'f' || c == 'F') && self.focus_pane == FocusPaneV2::Variants
            && self.variant_cursor >= 0 {
            let i: usize = self.variant_cursor as usize;
            if i < self.data.variants.len() {
                let value: String = self.data.variants[i].value.clone();
                self.canonical_input.set_value(value);
            }
            TagCanonicalityActionV2::Nothing
        } else if c == 'e' || c == 'E' {
            self.variant_cursor = -1;
            self.canonical_input.focused = true;
            self.focus_pane = FocusPaneV2::Variants;
            TagCanonicalityActionV2::Nothing
        } else if c == 't' {
            TagCanonicalityActionV2::OpenTagEditorIndividual
        } else if c == 'T' {
            TagCanonicalityActionV2::OpenTagEditorAggregated
        } else {
            TagCanonicalityActionV2::Nothing
        }
    }

    /// Answers an input.
    pub fn handle_input(&mut self, action: &InputAction) -> (r: TagCanonicalityActionV2)
        requires
            old(self)@.wf(),
        ensures
            (final(self)@, r) == old(self)@.step(*action),
            final(self)@.wf(),
    {
        if self.flag_confirmation_pending {
            return self.handle_flag_input(action);
        }
        let typing: bool = self.focus_pane == FocusPaneV2::Variants && self.variant_cursor == -1;
        match action {
            InputAction::FlagValue => {
                self.flag_confirmation_pending = true;
                TagCanonicalityActionV2::Nothing
            },
            InputAction::NavLeft => {
                if typing {
                    self.canonical_input.handle_input(action);
                } else {
                    self.focus_pane = FocusPaneV2::Variants;
                }
                TagCanonicalityActionV2::Nothing
            },
            InputAction::NavRight => {
                if typing {
                    self.canonical_input.handle_input(action);
                } else {
                    self.focus_pane = FocusPaneV2::Files;
                }
                TagCanonicalityActionV2::Nothing
            },
            InputAction::NavUp => {
                match self.focus_pane {
                    FocusPaneV2::Variants => self.variant_cursor_up(),
                    FocusPaneV2::Files => self.file_cursor_up(),
                }
                TagCanonicalityActionV2::Nothing
            },
            InputAction::NavDown => {
                match self.focus_pane {
                    FocusPaneV2::Variants => self.variant_cursor_down(),
                    FocusPaneV2::Files => self.file_cursor_down(),
                }
                TagCanonicalityActionV2::Nothing
            },
            InputAction::Confirm => {
                if self.can_submit() {
                    TagCanonicalityActionV2::Confirmed
                } else {
                    TagCanonicalityActionV2::Nothing
                }
            },
            InputAction::CycleNext => TagCanonicalityActionV2::Navigate { forward: true },
            InputAction::CyclePrev => TagCanonicalityActionV2::Navigate { forward: false },
            InputAction::Cancel => TagCanonicalityActionV2::Cancelled,
            InputAction::Shortcut('r') => TagCanonicalityActionV2::ShowReview,
            _ => {
                if typing {
                    self.canonical_input.handle_input(action);
                    return TagCanonicalityActionV2::Nothing;
                }
                match action {
                    InputAction::Toggle => {
                        if self.focus_pane == FocusPaneV2::Variants {
                            self.toggle_selection();
                        }
                        TagCanonicalityActionV2::Nothing
                    },
                    InputAction::Char(c) => self.handle_char(*c),
                    _ => TagCanonicalityActionV2::Nothing,
                }
            },
        }
    }
}

/// A decision is staged only by confirming, with a value to squash to and
/// something to be squashed; and going to another group changes nothing.
pub proof fn law_confirmed_only_when_ready(m: CanonicityV2Model, action: InputAction)
    ensures
        m.step(action).1 == TagCanonicalityActionV2::Confirmed <==> (action
            == InputAction::Confirm && m.ready() && !m.flag_confirmation_pending),
        m.step(action).1 is Navigate ==> m.step(action).0 == m,
{
}

/// No input changes what the modal works on.
pub proof fn law_input_keeps_data(m: CanonicityV2Model, action: InputAction)
    ensures
        m.step(action).0.data == m.data,
{
}

} // verus!
