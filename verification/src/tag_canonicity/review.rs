//! The review of the decisions before they are carried out.

use vstd::prelude::*;

use crate::input::{KeyCode, KeyEvent};

verus! {

/// A decision in a few words.
#[derive(Debug)]
pub struct DecisionSummary {
    /// The tag
    pub tag_name: String,
    /// The value to squash to
    pub canonical_value: String,
}

/// The model of a [`DecisionSummary`].
pub struct SummaryModel {
    pub tag_name: Seq<char>,
    pub canonical_value: Seq<char>,
}

impl DeepView for DecisionSummary {
    type V = SummaryModel;

    open spec fn deep_view(&self) -> SummaryModel {
        SummaryModel { tag_name: self.tag_name@, canonical_value: self.canonical_value@ }
    }
}

/// The buttons of the review, from left to right.
#[derive(Debug, Clone, Copy, PartialEq, Eq, Structural)]
pub enum ReviewButtonFocus {
    Cancel,
    Discard,
    Confirm,
}

impl ReviewButtonFocus {
    /// The button to the left.
    #[verifier::allow_in_spec]
    pub fn left(self) -> Self
        returns
            (match self {
                ReviewButtonFocus::Cancel => ReviewButtonFocus::Cancel,
                ReviewButtonFocus::Discard => ReviewButtonFocus::Cancel,
                ReviewButtonFocus::Confirm => ReviewButtonFocus::Discard,
            }),
    {
        match self {
            ReviewButtonFocus::Cancel => ReviewButtonFocus::Cancel,
            ReviewButtonFocus::Discard => ReviewButtonFocus::Cancel,
            ReviewButtonFocus::Confirm => ReviewButtonFocus::Discard,
        }
    }

    /// The button to the right.
    #[verifier::allow_in_spec]
    pub fn right(self) -> Self
        returns
            (match self {
                ReviewButtonFocus::Cancel => ReviewButtonFocus::Discard,
                ReviewButtonFocus::Discard => ReviewButtonFocus::Confirm,
                ReviewButtonFocus::Confirm => ReviewButtonFocus::Confirm,
            }),
    {
        match self {
            ReviewButtonFocus::Cancel => ReviewButtonFocus::Discard,
            ReviewButtonFocus::Discard => ReviewButtonFocus::Confirm,
            ReviewButtonFocus::Confirm => ReviewButtonFocus::Confirm,
        }
    }
}

/// The review.
#[derive(Debug)]
pub struct TagCanonicityReviewState {
    /// The decisions
    pub decisions: Vec<DecisionSummary>,
    /// The decision in hand
    pub cursor: usize,
    /// The button that has the focus
    pub button_focus: ReviewButtonFocus,
}

/// The model of a [`TagCanonicityReviewState`].
pub struct ReviewModel {
    pub decisions: Seq<SummaryModel>,
    pub cursor: usize,
    pub button_focus: ReviewButtonFocus,
}

impl View for TagCanonicityReviewState {
    type V = ReviewModel;

    open spec fn view(&self) -> ReviewModel {
        ReviewModel {
            decisions: self.decisions.deep_view(),
            cursor: self.cursor,
            button_focus: self.button_focus,
        }
    }
}

/// What the review asks for.
#[derive(Debug, Clone, Copy, PartialEq, Eq, Structural)]
pub enum TagCanonicityReviewAction {
    /// Nothing
    Nothing,
    /// Carry the decisions out
    Confirm,
    /// Drop the decisions
    Discard,
    /// Go back
    Cancel,
}

impl ReviewModel {
    /// The answer to a key.
    pub open spec fn key_step(self, key: KeyEvent) -> (ReviewModel, TagCanonicityReviewAction) {
        match key.code {
            KeyCode::Up => (
                if self.cursor > 0 {
                    ReviewModel { cursor: (self.cursor - 1) as usize, ..self }
                } else {
                    self
                },
                TagCanonicityReviewAction::Nothing,
            ),
            KeyCode::Down => (
                if self.cursor + 1 < self.decisions.len() {
                    ReviewModel { cursor: (self.cursor + 1) as usize, ..self }
                } else {
                    self
                },
                TagCanonicityReviewAction::Nothing,
            ),
            KeyCode::Left => (
                ReviewModel { button_focus: self.button_focus.left(), ..self },
                TagCanonicityReviewAction::Nothing,
            ),
            KeyCode::Right => (
                ReviewModel { button_focus: self.button_focus.right(), ..self },
                TagCanonicityReviewAction::Nothing,
            ),
            KeyCode::Tab => (
                ReviewModel { button_focus: self.button_focus.right(), ..self },
                TagCanonicityReviewAction::Nothing,
            ),
            KeyCode::Enter => (
                self,
                match self.button_focus {
                    ReviewButtonFocus::Confirm => TagCanonicityReviewAction::Confirm,
                    ReviewButtonFocus::Discard => TagCanonicityReviewAction::Discard,
                    ReviewButtonFocus::Cancel => TagCanonicityReviewAction::Cancel,
                },
            ),
            KeyCode::Esc => (self, TagCanonicityReviewAction::Cancel),
            KeyCode::Char(c) => (
                self,
                if c == 'y' || c == 'Y' {
                    TagCanonicityReviewAction::Confirm
                } else if c == 'd' || c == 'D' {
                    TagCanonicityReviewAction::Discard
                } else {
                    TagCanonicityReviewAction::Nothing
                },
            ),
            _ => (self, TagCanonicityReviewAction::Nothing),
        }
    }
}

impl TagCanonicityReviewState {
    /// Moves the focus to the button to the left.
    pub fn focus_left(&mut self)
        ensures
            final(self)@ == (ReviewModel {
                button_focus: old(self)@.button_focus.left(),
                ..old(self)@
            }),
    {
        self.button_focus = self.button_focus.left();
    }

    /// Moves the focus to the button to the right.
    pub fn focus_right(&mut self)
        ensures
            final(self)@ == (ReviewModel {
                button_focus: old(self)@.button_focus.right(),
                ..old(self)@
            }),
    {
        self.button_focus = self.button_focus.right();
    }

    /// Answers a key.
    pub fn handle_key(&mut self, key: KeyEvent) -> (r: TagCanonicityReviewAction)
        ensures
            (final(self)@, r) == old(self)@.key_step(key),
    {
        match key.code {
            KeyCode::Up => {
                if self.cursor > 0 {
                    self.cursor = self.cursor - 1;
                }
                TagCanonicityReviewAction::Nothing
            },
            KeyCode::Down => {
                if self.decisions.len() > 0 && self.cursor < self.decisions.len() - 1 {
                    self.cursor = self.cursor + 1;
                }
                TagCanonicityReviewAction::Nothing
            },
            KeyCode::Left => {
                self.focus_left();
                TagCanonicityReviewAction::Nothing
            },
            KeyCode::Right | KeyCode::Tab => {
                self.focus_right();
                TagCanonicityReviewAction::Nothing
            },
            KeyCode::Enter => match self.button_focus {
                ReviewButtonFocus::Confirm => TagCanonicityReviewAction::Confirm,
                ReviewButtonFocus::Discard => TagCanonicityReviewAction::Discard,
                ReviewButtonFocus::Cancel => TagCanonicityReviewAction::Cancel,
            },
            KeyCode::Esc => TagCanonicityReviewAction::Cancel,
            KeyCode::Char('y') | KeyCode::Char('Y') => TagCanonicityReviewAction::Confirm,
            KeyCode::Char('d') | KeyCode::Char('D') => TagCanonicityReviewAction::Discard,
            _ => TagCanonicityReviewAction::Nothing,
        }
    }
}

/// The decision in hand stays one of the decisions, which stay as they are.
pub proof fn law_review_cursor_in_bounds(m: ReviewModel, key: KeyEvent)
    requires
        m.cursor < m.decisions.len() <= usize::MAX,
    ensures
        m.key_step(key).0.cursor < m.decisions.len(),
        m.key_step(key).0.decisions == m.decisions,
{
}

/// What each key answers: Enter what the button in hand says, Y and D the same as
/// their buttons, and Esc leaves.
pub proof fn law_review_is_answered(m: ReviewModel, key: KeyEvent)
    ensures
        m.key_step(key).1 == TagCanonicityReviewAction::Confirm <==> key.code == KeyCode::Char('y')
            || key.code == KeyCode::Char('Y') || (key.code == KeyCode::Enter && m.button_focus
            == ReviewButtonFocus::Confirm),
        m.key_step(key).1 == TagCanonicityReviewAction::Discard <==> key.code == KeyCode::Char('d')
            || key.code == KeyCode::Char('D') || (key.code == KeyCode::Enter && m.button_focus
            == ReviewButtonFocus::Discard),
        m.key_step(key).1 == TagCanonicityReviewAction::Cancel <==> key.code == KeyCode::Esc || (
        key.code == KeyCode::Enter && m.button_focus == ReviewButtonFocus::Cancel),
        m.key_step(key).0.decisions == m.decisions,
{
}

/// Up and down go decision by decision, left and right along the buttons from
/// Cancel over Discard to Confirm; neither goes past the ends.
pub proof fn law_review_is_walked(m: ReviewModel, key: KeyEvent)
    requires
        m.cursor < m.decisions.len() <= usize::MAX,
    ensures
        ({
            let n = m.key_step(key).0;
            let b = m.button_focus;
            let right = key.code == KeyCode::Right || key.code == KeyCode::Tab;
            &&& n.cursor == (if key.code == KeyCode::Up && m.cursor > 0 {
                m.cursor - 1
            } else if key.code == KeyCode::Down && m.cursor + 1 < m.decisions.len() {
                m.cursor + 1
            } else {
                m.cursor as int
            })
            &&& n.button_focus == (if right && b == ReviewButtonFocus::Cancel {
                ReviewButtonFocus::Discard
            } else if right && b == ReviewButtonFocus::Discard {
                ReviewButtonFocus::Confirm
            } else if key.code == KeyCode::Left && b == ReviewButtonFocus::Confirm {
                ReviewButtonFocus::Discard
            } else if key.code == KeyCode::Left && b == ReviewButtonFocus::Discard {
                ReviewButtonFocus::Cancel
            } else {
                b
            })
        }),
{
}

} // verus!
