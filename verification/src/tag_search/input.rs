//! How the search answers input.

use vstd::prelude::*;

use crate::input::InputAction;
use crate::tag_search::state::{file_of, SearchModel, TagSearchState};
use crate::tag_search::types::{ConditionModel, QueryFieldFocus, SearchAnswer, TagSearchAction, TagSearchModal, TagSearchMode};

verus! {

/// Whether an input edits text.
pub open spec fn edits_text(action: InputAction) -> bool {
    match action {
        InputAction::Char(_) => true,
        InputAction::Paste(_) => true,
        InputAction::Backspace => true,
        InputAction::Delete => true,
        InputAction::TextHome => true,
        InputAction::TextEnd => true,
        InputAction::WordLeft => true,
        InputAction::WordRight => true,
        InputAction::KillToStart => true,
        InputAction::KillToEnd => true,
        _ => false,
    }
}

impl SearchModel {
    /// The answer while a modal is open.
    pub open spec fn modal_step(self, action: InputAction) -> (SearchModel, SearchAnswer) {
        let closes = self.modal != Some(TagSearchModal::GatheringTags) && (action
            == InputAction::Confirm || action == InputAction::Cancel);
        (
            if closes {
                SearchModel { modal: None, ..self }
            } else {
                self
            },
            SearchAnswer::Nothing,
        )
    }

    /// The search after a confirmation among the conditions.
    pub open spec fn confirmed(self) -> SearchModel {
        let c = self.condition();
        match self.field_focus {
            QueryFieldFocus::SearchButton => self,
            QueryFieldFocus::AddCondition => self.with_new_condition(),
            QueryFieldFocus::Operator => if self.focused_condition > 0 {
                self.with_condition(
                    ConditionModel { operator: c.operator.next(), ..c },
                )
            } else {
                self.right()
            },
            QueryFieldFocus::Comparison => self.with_condition(
                ConditionModel { comparison: c.comparison.next(), ..c },
            ),
            QueryFieldFocus::ConditionType => self.with_condition(
                ConditionModel {
                    condition_type: c.condition_type.next(),
                    ..c
                },
            ),
            QueryFieldFocus::FileTypeCategory => self.with_condition(
                ConditionModel {
                    file_type_category: c.file_type_category.next(),
                    ..c
                },
            ),
            _ => self.right(),
        }
    }

    /// The answer among the conditions.
    pub open spec fn query_step(self, action: InputAction) -> (SearchModel, SearchAnswer) {
        match action {
            InputAction::CycleNext => if self.field_focus == QueryFieldFocus::TagName
                && self.condition().tag_name.value.len() > 0 {
                (self.completed(), SearchAnswer::Nothing)
            } else {
                (self, SearchAnswer::CycleNext)
            },
            InputAction::CyclePrev => (self, SearchAnswer::CyclePrev),
            InputAction::Cancel => (self, SearchAnswer::Cancel),
            InputAction::NavUp => (self.up(), SearchAnswer::Nothing),
            InputAction::NavDown => (self.down(), SearchAnswer::Nothing),
            InputAction::NavLeft => (self.left(), SearchAnswer::Nothing),
            InputAction::NavRight => (self.right(), SearchAnswer::Nothing),
            InputAction::Confirm => (
                self.confirmed(),
                if self.field_focus == QueryFieldFocus::SearchButton {
                    SearchAnswer::ExecuteSearch
                } else {
                    SearchAnswer::Nothing
                },
            ),
            _ => if edits_text(action) {
                (self.edited(action), SearchAnswer::Nothing)
            } else {
                (self, SearchAnswer::Nothing)
            },
        }
    }

    /// The search with all results to be edited together, if there are any.
    pub open spec fn gathering(self) -> SearchModel {
        if self.results.len() > 0 {
            SearchModel {
                modal: Some(TagSearchModal::GatheringTags),
                pending_bulk_edit: Some(self.results.map_values(file_of())),
                ..self
            }
        } else {
            self
        }
    }

    /// The answer among the results.
    pub open spec fn results_step(self, action: InputAction) -> (SearchModel, SearchAnswer) {
        match action {
            InputAction::Char(c) => (
                if c == 'b' || c == 'B' {
                    self.gathering()
                } else {
                    self
                },
                SearchAnswer::Nothing,
            ),
            InputAction::ConfirmAll => (self.gathering(), SearchAnswer::Nothing),
            InputAction::NavUp => (self.prev_result(), SearchAnswer::Nothing),
            InputAction::NavDown => (self.next_result(), SearchAnswer::Nothing),
            InputAction::Confirm => if self.results_selected < self.results.len() {
                (
                    self,
                    SearchAnswer::EditAudioFile(
                        self.results[self.results_selected as int].audio_file,
                    ),
                )
            } else {
                (self, SearchAnswer::Nothing)
            },
            InputAction::Cancel => (
                SearchModel { mode: TagSearchMode::QueryBuilder, ..self },
                SearchAnswer::Nothing,
            ),
            InputAction::CycleNext => (self, SearchAnswer::CycleNext),
            InputAction::CyclePrev => (self, SearchAnswer::CyclePrev),
            _ => (self, SearchAnswer::Nothing),
        }
    }

    /// The answer to an input.
    pub open spec fn step(self, action: InputAction) -> (SearchModel, SearchAnswer) {
        if self.modal is Some {
            self.modal_step(action)
        } else {
            match self.mode {
                TagSearchMode::QueryBuilder => self.query_step(action),
                TagSearchMode::Results => self.results_step(action),
            }
        }
    }
}

impl TagSearchState {
    /// Answers an input.
    pub fn handle_input(&mut self, action: &InputAction) -> (r: TagSearchAction)
        requires
            old(self)@.wf(),
        ensures
            (final(self)@, r.deep_view()) == old(self)@.step(*action),
            final(self)@.wf(),
    {
        if self.modal.is_some() {
            self.handle_modal_input(action)
        } else {
            match self.mode {
                TagSearchMode::QueryBuilder => self.handle_query_builder_input(action),
                TagSearchMode::Results => self.handle_results_mode_input(action),
            }
        }
    }

    fn handle_modal_input(&mut self, action: &InputAction) -> (r: TagSearchAction)
        requires
            old(self)@.wf(),
        ensures
            (final(self)@, r.deep_view()) == old(self)@.modal_step(*action),
            final(self)@.wf(),
    {
        if let Some(TagSearchModal::GatheringTags) = self.modal {
            return TagSearchAction::Nothing;
        }
        match action {
            InputAction::Confirm | InputAction::Cancel => {
                self.modal = None;
                TagSearchAction::Nothing
            },
            _ => TagSearchAction::Nothing,
        }
    }

    fn handle_query_builder_input(&mut self, action: &InputAction) -> (r: TagSearchAction)
        requires
            old(self)@.wf(),
        ensures
            (final(self)@, r.deep_view()) == old(self)@.query_step(*action),
            final(self)@.wf(),
    {
        match action {
            InputAction::CycleNext => {
                if self.field_focus == QueryFieldFocus::TagName
                    && !self.conditions[self.focused_condition].tag_name.is_empty() {
                    self.apply_tag_name_suggestion();
                    TagSearchAction::Nothing
                } else {
                    TagSearchAction::CycleNext
                }
            },
            InputAction::CyclePrev => TagSearchAction::CyclePrev,
            InputAction::Cancel => TagSearchAction::Cancel,
            InputAction::NavUp => {
                self.move_focus_up();
                TagSearchAction::Nothing
            },
            InputAction::NavDown => {
                self.move_focus_down();
                TagSearchAction::Nothing
            },
            InputAction::NavLeft => {
                self.move_focus_left();
                TagSearchAction::Nothing
            },
            InputAction::NavRight => {
                self.move_focus_right();
                TagSearchAction::Nothing
            },
            InputAction::Confirm => {
                if self.is_on_search_button() {
                    return TagSearchAction::ExecuteSearch;
                }
                if self.is_on_add_condition() {
                    self.add_condition();
                } else if self.is_on_operator_field() {
                    self.cycle_operator();
                } else if self.is_on_comparison_field() {
                    self.cycle_comparison();
                } else if self.field_focus == QueryFieldFocus::ConditionType {
                    self.cycle_condition_type();
                } else if self.field_focus == QueryFieldFocus::FileTypeCategory {
                    self.cycle_file_type_category();
                } else {
                    self.move_focus_right();
                }
                TagSearchAction::Nothing
            },
            InputAction::Char(_)
            | InputAction::Paste(_)
            | InputAction::Backspace
            | InputAction::Delete
            | InputAction::TextHome
            | InputAction::TextEnd
            | InputAction::WordLeft
            | InputAction::WordRight
            | InputAction::KillToStart
            | InputAction::KillToEnd => {
                self.handle_text_input(action);
                TagSearchAction::Nothing
            },
            _ => TagSearchAction::Nothing,
        }
    }

    fn gather_all(&mut self)
        ensures
            final(self)@ == old(self)@.gathering(),
    {
        if self.results.len() > 0 {
            let files = self.all_result_audio_files();
            self.modal = Some(TagSearchModal::GatheringTags);
            self.pending_bulk_edit = Some(files);
        }
    }

    fn handle_results_mode_input(&mut self, action: &InputAction) -> (r: TagSearchAction)
        requires
            old(self)@.wf(),
        ensures
            (final(self)@, r.deep_view()) == old(self)@.results_step(*action),
            final(self)@.wf(),
    {
        match action {
            InputAction::Char(c) => {
                if *c == 'b' || *c == 'B' {
                    self.gather_all();
                }
                TagSearchAction::Nothing
            },
            InputAction::ConfirmAll => {
                self.gather_all();
                TagSearchAction::Nothing
            },
            InputAction::NavUp => {
                self.results_select_prev();
                TagSearchAction::Nothing
            },
            InputAction::NavDown => {
                self.results_select_next();
                TagSearchAction::Nothing
            },
            InputAction::Confirm => {
                match self.selected_result() {
                    Some(f) => TagSearchAction::EditAudioFile(f.audio_file.clone()),
                    None => TagSearchAction::Nothing,
                }
            },
            InputAction::Cancel => {
                self.mode = TagSearchMode::QueryBuilder;
                TagSearchAction::Nothing
            },
            InputAction::CycleNext => TagSearchAction::CycleNext,
            InputAction::CyclePrev => TagSearchAction::CyclePrev,
            _ => TagSearchAction::Nothing,
        }
    }
}

/// A search is asked for only by confirming on its button, with no modal open.
pub proof fn law_search_only_by_its_button(m: SearchModel, action: InputAction)
    requires
        m.step(action).1 == SearchAnswer::ExecuteSearch,
    ensures
        action == InputAction::Confirm,
        m.field_focus == QueryFieldFocus::SearchButton,
        m.modal is None,
        m.step(action).0 == m,
{
}

/// The ends of a range hold digits alone, whatever is typed into them.
pub proof fn law_ranges_hold_digits(m: SearchModel, c: char)
    requires
        m.wf(),
        m.field_focus == QueryFieldFocus::RangeMin || m.field_focus == QueryFieldFocus::RangeMax,
        m.text() matches Some(t) && forall|i: int|
            0 <= i < t.value.len() ==> crate::tag_search::evaluate::is_digit(
                #[trigger] t.value[i],
            ),
    ensures
        m.typed(c).text() matches Some(t) && forall|i: int|
            0 <= i < t.value.len() ==> crate::tag_search::evaluate::is_digit(
                #[trigger] t.value[i],
            ),
{
}

/// While the tags of the results are read, no input does anything.
pub proof fn law_gathering_ignores_input(m: SearchModel, action: InputAction)
    requires
        m.modal == Some(TagSearchModal::GatheringTags),
    ensures
        m.step(action) == (m, SearchAnswer::Nothing),
{
}

/// No input changes what was found.
pub proof fn law_input_keeps_results(m: SearchModel, action: InputAction)
    ensures
        m.step(action).0.results == m.results,
{
    if let InputAction::Paste(s) = action {
        lemma_typed_keeps_results(m, s@);
    }
}

proof fn lemma_typed_keeps_results(m: SearchModel, s: Seq<char>)
    ensures
        m.typed_all(s).results == m.results,
    decreases s.len(),
{
    if s.len() > 0 {
        lemma_typed_keeps_results(m, s.drop_last());
    }
}

} // verus!
