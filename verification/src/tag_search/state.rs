//! The state of a search: its conditions, the focus, and what was found.

use vstd::prelude::*;

use crate::corpus::{AudioFile, AudioFileModel};
use crate::input::InputAction;
use crate::lists::{chosen, first_place, set_item};
use crate::ordering::{in_order, sorted, Ranked};
use crate::screen::{nothing, put};
use crate::tag_search::evaluate::{evaluate_conditions, is_digit, meets_all, AudioFileWithTags, TaggedFileModel};
use crate::tag_search::types::{ConditionModel, ConditionType, QueryFieldFocus, SearchCondition, TagSearchModal, TagSearchMode};
use crate::text::{self, begins_with, lowercase};
use crate::text_input::TextInputModel;

verus! {

/// The search.
#[derive(Debug)]
pub struct TagSearchState {
    /// What is shown
    pub mode: TagSearchMode,
    /// The conditions, at least one
    pub conditions: Vec<SearchCondition>,
    /// The condition that has the focus
    pub focused_condition: usize,
    /// The part of it that has the focus, or a button
    pub field_focus: QueryFieldFocus,
    /// What was found
    pub results: Vec<AudioFileWithTags>,
    /// The result in hand
    pub results_selected: usize,
    /// The first result that is shown
    pub results_scroll: usize,
    /// The open modal
    pub modal: Option<TagSearchModal>,
    /// The files to be edited together, once the modal was shown
    pub pending_bulk_edit: Option<Vec<AudioFile>>,
}

/// The model of a [`TagSearchState`].
pub struct SearchModel {
    pub mode: TagSearchMode,
    pub conditions: Seq<ConditionModel>,
    pub focused_condition: usize,
    pub field_focus: QueryFieldFocus,
    pub results: Seq<TaggedFileModel>,
    pub results_selected: usize,
    pub results_scroll: usize,
    pub modal: Option<TagSearchModal>,
    pub pending_bulk_edit: Option<Seq<AudioFileModel>>,
}

impl View for TagSearchState {
    type V = SearchModel;

    open spec fn view(&self) -> SearchModel {
        SearchModel {
            mode: self.mode,
            conditions: self.conditions.deep_view(),
            focused_condition: self.focused_condition,
            field_focus: self.field_focus,
            results: self.results.deep_view(),
            results_selected: self.results_selected,
            results_scroll: self.results_scroll,
            modal: self.modal,
            pending_bulk_edit: self.pending_bulk_edit.deep_view(),
        }
    }
}

/// The tags whose names are completed.
pub open spec fn known_tags() -> Seq<Seq<char>> {
    crate::screen::list5("artist"@, "album"@, "album_artist"@, "title"@, "genre"@)
}

/// The condition of beginning with a text.
pub open spec fn starting(s: Seq<char>) -> spec_fn(Seq<char>) -> bool {
    |t: Seq<char>| begins_with(t, s)
}

/// The condition of meeting conditions.
pub open spec fn found_by(conditions: Seq<ConditionModel>) -> spec_fn(TaggedFileModel) -> bool {
    |f: TaggedFileModel| meets_all(f, conditions)
}

/// Whether one result comes before another.
pub open spec fn by_file_path() -> spec_fn(TaggedFileModel, TaggedFileModel) -> bool {
    |a: TaggedFileModel, b: TaggedFileModel| AudioFileWithTags::precedes(a, b)
}

/// The file of a result.
pub open spec fn file_of() -> spec_fn(TaggedFileModel) -> AudioFileModel {
    |f: TaggedFileModel| f.audio_file
}

/// The first result that is shown so that a result is in a window of twenty.
pub open spec fn scroll_for(selected: usize, scroll: usize) -> usize {
    if selected < scroll {
        selected
    } else if selected >= scroll + 20 {
        (selected - 19) as usize
    } else {
        scroll
    }
}

impl SearchModel {
    /// The search is in order: there is a condition, the focus is on one of
    /// them, and the cursors of their texts stand in them.
    pub open spec fn wf(self) -> bool {
        &&& self.conditions.len() > 0
        &&& self.focused_condition < self.conditions.len()
        &&& forall|i: int| 0 <= i < self.conditions.len() ==> (#[trigger] self.conditions[i]).wf()
    }

    /// The search as it opens.
    pub open spec fn opened() -> Self {
        SearchModel {
            mode: TagSearchMode::QueryBuilder,
            conditions: seq![ConditionModel::fresh()],
            focused_condition: 0,
            field_focus: QueryFieldFocus::TagName,
            results: Seq::empty(),
            results_selected: 0,
            results_scroll: 0,
            modal: None,
            pending_bulk_edit: None,
        }
    }

    /// The condition that has the focus.
    pub open spec fn condition(self) -> ConditionModel {
        self.conditions[self.focused_condition as int]
    }

    /// Another condition in place of the one that has the focus.
    pub open spec fn with_condition(self, c: ConditionModel) -> Self {
        if self.focused_condition < self.conditions.len() {
            SearchModel {
                conditions: self.conditions.update(self.focused_condition as int, c),
                ..self
            }
        } else {
            self
        }
    }

    /// The focus elsewhere.
    pub open spec fn focus(self, field_focus: QueryFieldFocus) -> Self {
        SearchModel { field_focus, ..self }
    }

    /// The focus one up.
    pub open spec fn up(self) -> Self {
        match self.field_focus {
            QueryFieldFocus::SearchButton => self.focus(QueryFieldFocus::AddCondition),
            QueryFieldFocus::AddCondition => if self.conditions.len() > 0 {
                SearchModel {
                    focused_condition: (self.conditions.len() - 1) as usize,
                    field_focus: QueryFieldFocus::ConditionType,
                    ..self
                }
            } else {
                self
            },
            _ => if self.focused_condition > 0 {
                SearchModel { focused_condition: (self.focused_condition - 1) as usize, ..self }
            } else {
                self
            },
        }
    }

    /// The focus one down.
    pub open spec fn down(self) -> Self {
        match self.field_focus {
            QueryFieldFocus::SearchButton => self,
            QueryFieldFocus::AddCondition => self.focus(QueryFieldFocus::SearchButton),
            _ => if self.focused_condition + 1 < self.conditions.len() {
                SearchModel { focused_condition: (self.focused_condition + 1) as usize, ..self }
            } else {
                self.focus(QueryFieldFocus::AddCondition)
            },
        }
    }

    /// The focus one to the left.
    pub open spec fn left(self) -> Self {
        match self.field_focus {
            QueryFieldFocus::Value => self.focus(QueryFieldFocus::Comparison),
            QueryFieldFocus::Comparison => self.focus(QueryFieldFocus::TagName),
            QueryFieldFocus::TagName => self.focus(QueryFieldFocus::ConditionType),
            QueryFieldFocus::ConditionType => if self.focused_condition > 0 {
                self.focus(QueryFieldFocus::Operator)
            } else {
                self
            },
            QueryFieldFocus::RangeMax => self.focus(QueryFieldFocus::RangeMin),
            QueryFieldFocus::RangeMin => self.focus(QueryFieldFocus::ConditionType),
            QueryFieldFocus::FileTypeCategory => self.focus(QueryFieldFocus::ConditionType),
            _ => self,
        }
    }

    /// What the condition that has the focus is about.
    pub open spec fn focused_type(self) -> ConditionType {
        if self.focused_condition < self.conditions.len() {
            self.condition().condition_type
        } else {
            ConditionType::Tag
        }
    }

    /// The focus one to the right.
    pub open spec fn right(self) -> Self {
        match self.field_focus {
            QueryFieldFocus::Operator => self.focus(QueryFieldFocus::ConditionType),
            QueryFieldFocus::ConditionType => match self.focused_type() {
                ConditionType::Tag => self.focus(QueryFieldFocus::TagName),
                ConditionType::FileType => self.focus(QueryFieldFocus::FileTypeCategory),
                _ => self.focus(QueryFieldFocus::RangeMin),
            },
            QueryFieldFocus::TagName => self.focus(QueryFieldFocus::Comparison),
            QueryFieldFocus::Comparison => self.focus(QueryFieldFocus::Value),
            QueryFieldFocus::RangeMin => self.focus(QueryFieldFocus::RangeMax),
            _ => self,
        }
    }

    /// The text that has the focus, if any.
    pub open spec fn text(self) -> Option<TextInputModel> {
        if self.focused_condition >= self.conditions.len() {
            None
        } else {
            match self.field_focus {
                QueryFieldFocus::TagName => Some(self.condition().tag_name),
                QueryFieldFocus::Value => Some(self.condition().value),
                QueryFieldFocus::RangeMin => Some(self.condition().range_min),
                QueryFieldFocus::RangeMax => Some(self.condition().range_max),
                _ => None,
            }
        }
    }

    /// Another text in place of the one that has the focus.
    pub open spec fn with_text(self, t: TextInputModel) -> Self {
        let c = self.condition();
        match self.field_focus {
            QueryFieldFocus::TagName => self.with_condition(ConditionModel { tag_name: t, ..c }),
            QueryFieldFocus::Value => self.with_condition(ConditionModel { value: t, ..c }),
            QueryFieldFocus::RangeMin => self.with_condition(ConditionModel { range_min: t, ..c }),
            QueryFieldFocus::RangeMax => self.with_condition(ConditionModel { range_max: t, ..c }),
            _ => self,
        }
    }

    /// Whether a character may stand in the text that has the focus. The ends
    /// of a range take digits alone.
    pub open spec fn takes(self, c: char) -> bool {
        (self.field_focus != QueryFieldFocus::RangeMin && self.field_focus
            != QueryFieldFocus::RangeMax) || is_digit(c)
    }

    /// A character typed.
    pub open spec fn typed(self, c: char) -> Self {
        match self.text() {
            Some(t) => if self.takes(c) {
                self.with_text(t.insert(seq![c]))
            } else {
                self
            },
            None => self,
        }
    }

    /// Characters typed one after the other.
    pub open spec fn typed_all(self, s: Seq<char>) -> Self
        decreases s.len(),
    {
        if s.len() == 0 {
            self
        } else {
            self.typed_all(s.drop_last()).typed(s.last())
        }
    }

    /// The character before the cursor taken back.
    pub open spec fn untyped(self) -> Self {
        match self.text() {
            Some(t) => self.with_text(t.backspace()),
            None => self,
        }
    }

    /// An input that edits text, in the text that has the focus.
    pub open spec fn edited(self, action: InputAction) -> Self {
        match action {
            InputAction::Char(c) => self.typed(c),
            InputAction::Paste(s) => self.typed_all(s@),
            _ => match self.text() {
                Some(t) => self.with_text(t.step(action)),
                None => self,
            },
        }
    }

    /// One more condition, with the focus on its name.
    pub open spec fn with_new_condition(self) -> Self {
        SearchModel {
            conditions: self.conditions.push(ConditionModel::fresh()),
            focused_condition: self.conditions.len() as usize,
            field_focus: QueryFieldFocus::TagName,
            ..self
        }
    }

    /// The name of the tag completed to the first known one that begins so.
    pub open spec fn completed(self) -> Self {
        if self.focused_condition >= self.conditions.len() {
            self
        } else {
            let c = self.condition();
            let query = lowercase(c.tag_name.value);
            let i = first_place(known_tags(), 0, starting(query));
            if query.len() == 0 || i >= known_tags().len() {
                self
            } else {
                self.with_condition(
                    ConditionModel {
                        tag_name: c.tag_name.with_value(known_tags()[i as int]),
                        ..c
                    },
                )
            }
        }
    }

    /// The search done over all files: those that meet the conditions, in the
    /// order of their paths.
    pub open spec fn searched(self, all: Seq<TaggedFileModel>) -> Self {
        let found = in_order(chosen(all, found_by(self.conditions)), by_file_path());
        let m = SearchModel { results: found, results_selected: 0, results_scroll: 0, ..self };
        if found.len() == 0 {
            SearchModel { modal: Some(TagSearchModal::NoResults), ..m }
        } else {
            SearchModel { mode: TagSearchMode::Results, ..m }
        }
    }

    /// Another result in hand.
    pub open spec fn at_result(self, i: usize) -> Self {
        SearchModel {
            results_selected: i,
            results_scroll: scroll_for(i, self.results_scroll),
            ..self
        }
    }

    /// The result before.
    pub open spec fn prev_result(self) -> Self {
        if self.results_selected > 0 {
            self.at_result((self.results_selected - 1) as usize)
        } else {
            self
        }
    }

    /// The result after.
    pub open spec fn next_result(self) -> Self {
        if self.results_selected + 1 < self.results.len() {
            self.at_result((self.results_selected + 1) as usize)
        } else {
            self
        }
    }
}

impl TagSearchState {
    /// A search with one empty condition.
    pub fn new() -> (r: Self)
        ensures
            r@ == SearchModel::opened(),
            r@.wf(),
    {
        let mut conditions: Vec<SearchCondition> = nothing();
        put(&mut conditions, SearchCondition::new());
        TagSearchState {
            mode: TagSearchMode::QueryBuilder,
            conditions,
            focused_condition: 0,
            field_focus: QueryFieldFocus::TagName,
            results: nothing(),
            results_selected: 0,
            results_scroll: 0,
            modal: None,
            pending_bulk_edit: None,
        }
    }

    /// Whether the button that searches has the focus.
    pub fn is_on_search_button(&self) -> (r: bool)
        ensures
            r == (self@.field_focus == QueryFieldFocus::SearchButton),
    {
        self.field_focus == QueryFieldFocus::SearchButton
    }

    /// Whether the button that adds a condition has the focus.
    pub fn is_on_add_condition(&self) -> (r: bool)
        ensures
            r == (self@.field_focus == QueryFieldFocus::AddCondition),
    {
        self.field_focus == QueryFieldFocus::AddCondition
    }

    /// Whether an operator has the focus. The first condition has none.
    pub fn is_on_operator_field(&self) -> (r: bool)
        ensures
            r == (self@.field_focus == QueryFieldFocus::Operator && self@.focused_condition > 0),
    {
        self.field_focus == QueryFieldFocus::Operator && self.focused_condition > 0
    }

    /// Whether a comparison has the focus.
    pub fn is_on_comparison_field(&self) -> (r: bool)
        ensures
            r == (self@.field_focus == QueryFieldFocus::Comparison),
    {
        self.field_focus == QueryFieldFocus::Comparison
    }

    /// Moves the focus one up.
    pub fn move_focus_up(&mut self)
        ensures
            final(self)@ == old(self)@.up(),
    {
        match self.field_focus {
            QueryFieldFocus::SearchButton => {
                self.field_focus = QueryFieldFocus::AddCondition;
            },
            QueryFieldFocus::AddCondition => {
                if self.conditions.len() > 0 {
                    self.focused_condition = self.conditions.len() - 1;
                    self.field_focus = QueryFieldFocus::ConditionType;
                }
            },
            _ => {
                if self.focused_condition > 0 {
                    self.focused_condition = self.focused_condition - 1;
                }
            },
        }
    }

    /// Moves the focus one down.
    pub fn move_focus_down(&mut self)
        ensures
            final(self)@ == old(self)@.down(),
    {
        match self.field_focus {
            QueryFieldFocus::SearchButton => {},
            QueryFieldFocus::AddCondition => {
                self.field_focus = QueryFieldFocus::SearchButton;
            },
            _ => {
                if self.conditions.len() > 0 && self.focused_condition < self.conditions.len()
                    - 1 {
                    self.focused_condition = self.focused_condition + 1;
                } else {
                    self.field_focus = QueryFieldFocus::AddCondition;
                }
            },
        }
    }

    /// Moves the focus one to the left.
    pub fn move_focus_left(&mut self)
        ensures
            final(self)@ == old(self)@.left(),
    {
        match self.field_focus {
            QueryFieldFocus::Value => {
                self.field_focus = QueryFieldFocus::Comparison;
            },
            QueryFieldFocus::Comparison => {
                self.field_focus = QueryFieldFocus::TagName;
            },
            QueryFieldFocus::TagName => {
                self.field_focus = QueryFieldFocus::ConditionType;
            },
            QueryFieldFocus::ConditionType => {
                if self.focused_condition > 0 {
                    self.field_focus = QueryFieldFocus::Operator;
                }
            },
            QueryFieldFocus::RangeMax => {
                self.field_focus = QueryFieldFocus::RangeMin;
            },
            QueryFieldFocus::RangeMin => {
                self.field_focus = QueryFieldFocus::ConditionType;
            },
            QueryFieldFocus::FileTypeCategory => {
                self.field_focus = QueryFieldFocus::ConditionType;
            },
            _ => {},
        }
    }

    /// Moves the focus one to the right.
    pub fn move_focus_right(&mut self)
        ensures
            final(self)@ == old(self)@.right(),
    {
        let condition_type: ConditionType = if self.focused_condition < self.conditions.len() {
            self.conditions[self.focused_condition].condition_type
        } else {
            ConditionType::Tag
        };
        match self.field_focus {
            QueryFieldFocus::Operator => {
                self.field_focus = QueryFieldFocus::ConditionType;
            },
            QueryFieldFocus::ConditionType => {
                self.field_focus = match condition_type {
                    ConditionType::Tag => QueryFieldFocus::TagName,
                    ConditionType::FileType => QueryFieldFocus::FileTypeCategory,
                    _ => QueryFieldFocus::RangeMin,
                };
            },
            QueryFieldFocus::TagName => {
                self.field_focus = QueryFieldFocus::Comparison;
            },
            QueryFieldFocus::Comparison => {
                self.field_focus = QueryFieldFocus::Value;
            },
            QueryFieldFocus::RangeMin => {
                self.field_focus = QueryFieldFocus::RangeMax;
            },
            _ => {},
        }
    }

    /// Takes the condition that has the focus out of its place.
    fn take_condition(&mut self) -> (r: SearchCondition)
        requires
            old(self)@.focused_condition < old(self)@.conditions.len(),
        ensures
            r.deep_view() == old(self)@.condition(),
            final(self)@ == (SearchModel {
                conditions: old(self)@.conditions.update(
                    old(self)@.focused_condition as int,
                    ConditionModel::fresh(),
                ),
                ..old(self)@
            }),
    {
        let ghost before = self.conditions.deep_view();
        let i: usize = self.focused_condition;
        self.conditions.push(SearchCondition::new());
        let r: SearchCondition = self.conditions.swap_remove(i);
        proof {
            assert(self.conditions.deep_view() =~= before.update(i as int, ConditionModel::fresh()));
        }
        r
    }

    /// Puts a condition where one was taken out.
    fn put_condition(&mut self, c: SearchCondition, Ghost(before): Ghost<SearchModel>)
        requires
            before.focused_condition < before.conditions.len(),
            old(self)@ == (SearchModel {
                conditions: before.conditions.update(
                    before.focused_condition as int,
                    ConditionModel::fresh(),
                ),
                ..before
            }),
        ensures
            final(self)@ == before.with_condition(c.deep_view()),
    {
        let i: usize = self.focused_condition;
        proof {
            assert(self@.conditions.len() == self.conditions.len());
        }
        set_item(&mut self.conditions, i, c);
        proof {
            assert(self@.conditions =~= before.conditions.update(i as int, c.deep_view()));
        }
    }

    /// Goes on to the next comparison.
    pub fn cycle_comparison(&mut self)
        ensures
            final(self)@ == old(self)@.with_condition(
                ConditionModel {
                    comparison: old(self)@.condition().comparison.next(),
                    ..old(self)@.condition()
                },
            ),
    {
        let ghost before = self@;
        if self.focused_condition < self.conditions.len() {
            let mut c: SearchCondition = self.take_condition();
            c.comparison = c.comparison.next();
            self.put_condition(c, Ghost(before));
        }
    }

    /// Goes on to the next kind of condition.
    pub fn cycle_condition_type(&mut self)
        ensures
            final(self)@ == old(self)@.with_condition(
                ConditionModel {
                    condition_type: old(self)@.condition().condition_type.next(),
                    ..old(self)@.condition()
                },
            ),
    {
        let ghost before = self@;
        if self.focused_condition < self.conditions.len() {
            let mut c: SearchCondition = self.take_condition();
            c.condition_type = c.condition_type.next();
            self.put_condition(c, Ghost(before));
        }
    }

    /// Goes on to the next category of file types.
    pub fn cycle_file_type_category(&mut self)
        ensures
            final(self)@ == old(self)@.with_condition(
                ConditionModel {
                    file_type_category: old(self)@.condition().file_type_category.next(),
                    ..old(self)@.condition()
                },
            ),
    {
        let ghost before = self@;
        if self.focused_condition < self.conditions.len() {
            let mut c: SearchCondition = self.take_condition();
            c.file_type_category = c.file_type_category.next();
            self.put_condition(c, Ghost(before));
        }
    }

    /// Goes on to the next operator.
    pub fn cycle_operator(&mut self)
        ensures
            final(self)@ == old(self)@.with_condition(
                ConditionModel {
                    operator: old(self)@.condition().operator.next(),
                    ..old(self)@.condition()
                },
            ),
    {
        let ghost before = self@;
        if self.focused_condition < self.conditions.len() {
            let mut c: SearchCondition = self.take_condition();
            c.operator = c.operator.next();
            self.put_condition(c, Ghost(before));
        }
    }

    /// Types a character into the text that has the focus.
    pub fn insert_char(&mut self, ch: char)
        requires
            old(self)@.wf(),
        ensures
            final(self)@ == old(self)@.typed(ch),
            final(self)@.wf(),
    {
        let ghost before = self@;
        let digit: bool = '0' <= ch && ch <= '9';
        match self.field_focus {
            QueryFieldFocus::TagName => {
                let mut c: SearchCondition = self.take_condition();
                c.tag_name.insert_char(ch);
                self.put_condition(c, Ghost(before));
            },
            QueryFieldFocus::Value => {
                let mut c: SearchCondition = self.take_condition();
                c.value.insert_char(ch);
                self.put_condition(c, Ghost(before));
            },
            QueryFieldFocus::RangeMin => {
                if digit {
                    let mut c: SearchCondition = self.take_condition();
                    c.range_min.insert_char(ch);
                    self.put_condition(c, Ghost(before));
                }
            },
            QueryFieldFocus::RangeMax => {
                if digit {
                    let mut c: SearchCondition = self.take_condition();
                    c.range_max.insert_char(ch);
                    self.put_condition(c, Ghost(before));
                }
            },
            _ => {},
        }
    }

    /// Hands an input to the text that has the focus.
    fn edit_text(&mut self, action: &InputAction)
        requires
            old(self)@.wf(),
        ensures
            final(self)@ == (match old(self)@.text() {
                Some(t) => old(self)@.with_text(t.step(*action)),
                None => old(self)@,
            }),
            final(self)@.wf(),
    {
        let ghost before = self@;
        match self.field_focus {
            QueryFieldFocus::TagName => {
                let mut c: SearchCondition = self.take_condition();
                c.tag_name.handle_input(action);
                self.put_condition(c, Ghost(before));
            },
            QueryFieldFocus::Value => {
                let mut c: SearchCondition = self.take_condition();
                c.value.handle_input(action);
                self.put_condition(c, Ghost(before));
            },
            QueryFieldFocus::RangeMin => {
                let mut c: SearchCondition = self.take_condition();
                c.range_min.handle_input(action);
                self.put_condition(c, Ghost(before));
            },
            QueryFieldFocus::RangeMax => {
                let mut c: SearchCondition = self.take_condition();
                c.range_max.handle_input(action);
                self.put_condition(c, Ghost(before));
            },
            _ => {},
        }
    }

    /// Takes back the character before the cursor.
    pub fn backspace(&mut self)
        requires
            old(self)@.wf(),
        ensures
            final(self)@ == old(self)@.untyped(),
            final(self)@.wf(),
    {
        self.edit_text(&InputAction::Backspace);
    }

    /// Takes back the character before the cursor, as backspace does.
    pub fn delete(&mut self)
        requires
            old(self)@.wf(),
        ensures
            final(self)@ == old(self)@.untyped(),
            final(self)@.wf(),
    {
        self.backspace();
    }

    /// Edits the text that has the focus, as an input asks.
    pub fn handle_text_input(&mut self, action: &InputAction)
        requires
            old(self)@.wf(),
        ensures
            final(self)@ == old(self)@.edited(*action),
            final(self)@.wf(),
    {
        match action {
            InputAction::Char(c) => {
                self.insert_char(*c);
            },
            InputAction::Paste(s) => {
                let chars: Vec<char> = text::chars_of(s.as_str());
                let ghost start = self@;
                proof {
                    assert(chars@.take(0) =~= Seq::<char>::empty());
                }
                let mut i: usize = 0;
                while i < chars.len()
                    invariant
                        i <= chars.len(),
                        self@ == start.typed_all(chars@.take(i as int)),
                        self@.wf(),
                    decreases chars.len() - i,
                {
                    self.insert_char(chars[i]);
                    proof {
                        assert(chars@.take(i as int + 1).drop_last() =~= chars@.take(i as int));
                    }
                    i = i + 1;
                }
                proof {
                    assert(chars@.take(chars.len() as int) =~= chars@);
                }
            },
            _ => {
                self.edit_text(action);
            },
        }
    }

    /// Adds an empty condition.
    pub fn add_condition(&mut self)
        requires
            old(self)@.wf(),
        ensures
            final(self)@ == old(self)@.with_new_condition(),
            final(self)@.wf(),
    {
        put(&mut self.conditions, SearchCondition::new());
        self.focused_condition = self.conditions.len() - 1;
        self.field_focus = QueryFieldFocus::TagName;
    }

    /// Completes the name of the tag.
    pub fn apply_tag_name_suggestion(&mut self)
        requires
            old(self)@.wf(),
        ensures
            final(self)@ == old(self)@.completed(),
            final(self)@.wf(),
    {
        let ghost before = self@;
        let query: String = text::to_lowercase(
            self.conditions[self.focused_condition].tag_name.value(),
        );
        if query.as_str().is_empty() {
            return;
        }
        let mut known: Vec<String> = nothing();
        put(&mut known, "artist".to_owned());
        put(&mut known, "album".to_owned());
        put(&mut known, "album_artist".to_owned());
        put(&mut known, "title".to_owned());
        put(&mut known, "genre".to_owned());
        let ghost ks = known.deep_view();
        let mut i: usize = 0;
        while i < known.len() && !text::starts_with(known[i].as_str(), query.as_str())
            invariant
                i <= known.len(),
                ks == known.deep_view(),
                first_place(ks, 0, starting(query@)) == first_place(
                    ks,
                    i as nat,
                    starting(query@),
                ),
            decreases known.len() - i,
        {
            i = i + 1;
        }
        if i < known.len() {
            let name: String = known[i].clone();
            let mut c: SearchCondition = self.take_condition();
            c.tag_name.set_value(name);
            self.put_condition(c, Ghost(before));
        }
    }

    /// Takes the files that are to be edited together, if there are any.
    pub fn take_pending_bulk_edit(&mut self) -> (r: Option<Vec<AudioFile>>)
        ensures
            r.deep_view() == old(self)@.pending_bulk_edit,
            final(self)@ == (if old(self)@.pending_bulk_edit is Some {
                SearchModel { modal: None, pending_bulk_edit: None, ..old(self)@ }
            } else {
                old(self)@
            }),
    {
        if self.pending_bulk_edit.is_some() {
            self.modal = None;
            self.pending_bulk_edit.take()
        } else {
            None
        }
    }

    /// Searches all files.
    pub fn execute_search(&mut self, all: Vec<AudioFileWithTags>)
        ensures
            final(self)@ == old(self)@.searched(all.deep_view()),
    {
        let ghost s = all.deep_view();
        let ghost p = found_by(self@.conditions);
        let mut pending: Vec<AudioFileWithTags> = all;
        let mut found: Vec<AudioFileWithTags> = nothing();
        proof {
            crate::lists::lemma_chosen_start(s, p);
            assert(s.skip(0) =~= s);
        }
        let ghost mut n: int = 0;
        while pending.len() > 0
            invariant
                0 <= n <= s.len(),
                self@ == old(self)@,
                p == found_by(self@.conditions),
                pending.deep_view() == s.skip(n),
                found.deep_view() == chosen(s.take(n), p),
            decreases pending.len(),
        {
            let ghost before = pending.deep_view();
            proof {
                assert(before.len() == pending.len());
                assert(before[0] == s[n]);
                crate::lists::lemma_chosen_step(s, n, p);
            }
            let f: AudioFileWithTags = pending.remove(0);
            proof {
                assert(f.deep_view() == s[n]);
                assert(pending.deep_view() =~= before.remove(0));
                assert(before.remove(0) =~= s.skip(n + 1));
                n = n + 1;
            }
            if evaluate_conditions(&f, &self.conditions) {
                put(&mut found, f);
            }
        }
        proof {
            assert(pending.deep_view().len() == 0);
            assert(n == s.len());
            assert(s.take(n) =~= s);
        }
        self.results = sorted(found);
        self.results_selected = 0;
        self.results_scroll = 0;
        if self.results.len() == 0 {
            self.modal = Some(TagSearchModal::NoResults);
        } else {
            self.mode = TagSearchMode::Results;
        }
    }

    /// Takes the result before.
    pub fn results_select_prev(&mut self)
        ensures
            final(self)@ == old(self)@.prev_result(),
    {
        if self.results_selected > 0 {
            self.results_selected = self.results_selected - 1;
            self.ensure_results_visible();
        }
    }

    /// Takes the result after.
    pub fn results_select_next(&mut self)
        ensures
            final(self)@ == old(self)@.next_result(),
    {
        if self.results.len() > 0 && self.results_selected < self.results.len() - 1 {
            self.results_selected = self.results_selected + 1;
            self.ensure_results_visible();
        }
    }

    fn ensure_results_visible(&mut self)
        ensures
            final(self)@ == (SearchModel {
                results_scroll: scroll_for(
                    old(self)@.results_selected,
                    old(self)@.results_scroll,
                ),
                ..old(self)@
            }),
    {
        if self.results_selected < self.results_scroll {
            self.results_scroll = self.results_selected;
        } else if self.results_selected - self.results_scroll >= 20 {
            self.results_scroll = self.results_selected - 19;
        }
    }

    /// The result in hand.
    pub fn selected_result(&self) -> (r: Option<&AudioFileWithTags>)
        ensures
            r is Some <==> self@.results_selected < self@.results.len(),
            r is Some ==> r->0.deep_view() == self@.results[self@.results_selected as int],
    {
        if self.results_selected < self.results.len() {
            Some(&self.results[self.results_selected])
        } else {
            None
        }
    }

    /// The files of all results.
    pub fn all_result_audio_files(&self) -> (r: Vec<AudioFile>)
        ensures
            r.deep_view() == self@.results.map_values(file_of()),
    {
        let ghost s = self.results.deep_view();
        let mut out: Vec<AudioFile> = nothing();
        let mut i: usize = 0;
        while i < self.results.len()
            invariant
                i <= self.results.len(),
                s == self.results.deep_view(),
                out.len() == i,
                forall|k: int| 0 <= k < i ==> (#[trigger] out[k]).deep_view() == file_of()(s[k]),
            decreases self.results.len() - i,
        {
            out.push(self.results[i].audio_file.clone());
            i = i + 1;
        }
        proof {
            assert(out.deep_view() =~= s.map_values(file_of()));
        }
        out
    }
}

/// A search finds exactly the files that meet its conditions.
pub proof fn law_search_finds_what_meets(m: SearchModel, all: Seq<TaggedFileModel>)
    ensures
        forall|i: int|
            0 <= i < m.searched(all).results.len() ==> meets_all(
                #[trigger] m.searched(all).results[i],
                m.conditions,
            ) && all.contains(m.searched(all).results[i]),
        m.searched(all).results.len() == crate::lists::tally(all, found_by(m.conditions)),
        m.searched(all).results.to_multiset() == chosen(
            all,
            found_by(m.conditions),
        ).to_multiset(),
{
    let p = found_by(m.conditions);
    let found = chosen(all, p);
    crate::lists::law_chosen(all, p);
    crate::ordering::law_in_order(found, by_file_path());
    assert forall|i: int| 0 <= i < m.searched(all).results.len() implies meets_all(
        #[trigger] m.searched(all).results[i],
        m.conditions,
    ) && all.contains(m.searched(all).results[i]) by {
        let x = m.searched(all).results[i];
        assert(found.contains(x));
        let k = choose|k: int| 0 <= k < found.len() && found[k] == x;
        assert(p(found[k]));
    }
}

/// The results stand in the order of their paths.
pub proof fn law_results_by_path(m: SearchModel, all: Seq<TaggedFileModel>)
    ensures
        crate::ordering::is_ordered(m.searched(all).results, by_file_path()),
{
    assert forall|a: TaggedFileModel| !#[trigger] by_file_path()(a, a) by {
        text::law_text_before_irreflexive(a.audio_file.path);
    }
    assert forall|a: TaggedFileModel, b: TaggedFileModel, c: TaggedFileModel| #[trigger]
        by_file_path()(a, b) && #[trigger] by_file_path()(b, c) implies by_file_path()(a, c) by {
        text::law_text_before_transitive(
            a.audio_file.path,
            b.audio_file.path,
            c.audio_file.path,
        );
    }
    assert forall|a: TaggedFileModel, b: TaggedFileModel, c: TaggedFileModel|
        !#[trigger] by_file_path()(a, b) && !#[trigger] by_file_path()(b, c) implies !by_file_path()(
        a,
        c,
    ) by {
        let x = a.audio_file.path;
        let y = b.audio_file.path;
        let z = c.audio_file.path;
        text::law_text_before_total(x, y);
        text::law_text_before_total(y, z);
        if text::text_before(x, z) {
            if x == y {
            } else if y == z {
            } else {
                text::law_text_before_transitive(z, y, x);
                text::law_text_before_transitive(x, z, x);
                text::law_text_before_irreflexive(x);
            }
        }
    }
    crate::ordering::law_in_order(chosen(all, found_by(m.conditions)), by_file_path());
}

/// The result in hand is in the window that is shown, and is one of the results.
pub proof fn law_result_in_hand_is_shown(m: SearchModel)
    requires
        m.results_selected < m.results.len(),
        m.results.len() <= usize::MAX,
        m.results_scroll <= m.results_selected < m.results_scroll + 20,
    ensures
        m.next_result().results_selected < m.results.len(),
        m.next_result().results_scroll <= m.next_result().results_selected
            < m.next_result().results_scroll + 20,
        m.prev_result().results_selected < m.results.len(),
        m.prev_result().results_scroll <= m.prev_result().results_selected
            < m.prev_result().results_scroll + 20,
{
}

} // verus!
