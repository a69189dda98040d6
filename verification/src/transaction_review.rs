//! The review of a transaction as one of the views that Tab goes round.

use vstd::prelude::*;

use crate::input::InputAction;
use crate::screen::{ink, line, Color, Line};

verus! {

/// What a review asks for: to be left, or something of its own.
#[derive(Debug, Clone, Copy)]
pub enum TransactionReviewAction<A> {
    /// Leave
    Cancel,
    /// Anything else
    Other(A),
}

/// What the view asks for.
#[derive(Debug, Clone, Copy)]
pub enum TabbedTransactionReviewAction<A> {
    /// Go to the next view
    CycleNext,
    /// Go to the previous view
    CyclePrev,
    /// Ask whether to quit
    RequestQuit,
    /// What the review asks for
    Review(A),
}

/// The view, around a review.
#[derive(Debug)]
pub struct TabbedTransactionReviewState<R> {
    pub review: R,
}

/// What the view does with an input before the review sees it, if anything.
pub open spec fn kept_back<A>(action: InputAction) -> Option<TabbedTransactionReviewAction<A>> {
    match action {
        InputAction::CycleNext => Some(TabbedTransactionReviewAction::CycleNext),
        InputAction::CyclePrev => Some(TabbedTransactionReviewAction::CyclePrev),
        _ => None,
    }
}

/// What the view asks for, given what the review asks for. There is nothing to
/// leave the review for but the program.
pub open spec fn delegated<A>(answer: TransactionReviewAction<A>) -> TabbedTransactionReviewAction<
    A,
> {
    match answer {
        TransactionReviewAction::Cancel => TabbedTransactionReviewAction::RequestQuit,
        TransactionReviewAction::Other(a) => TabbedTransactionReviewAction::Review(a),
    }
}

/// The answer of the view to an input, given the answer of the review to it.
pub open spec fn answered<A>(
    action: InputAction,
    answer: TransactionReviewAction<A>,
) -> TabbedTransactionReviewAction<A> {
    match kept_back(action) {
        Some(r) => r,
        None => delegated(answer),
    }
}

/// Whether the review sees an input. Tab and Shift+Tab are the view's own.
pub fn reaches_review(action: &InputAction) -> (r: bool)
    ensures
        r == (kept_back::<()>(*action) is None),
{
    match action {
        InputAction::CycleNext => false,
        InputAction::CyclePrev => false,
        _ => true,
    }
}

impl<R> TabbedTransactionReviewState<R> {
    /// The view around a review.
    pub fn new(review: R) -> (r: Self)
        ensures
            r.review == review,
    {
        TabbedTransactionReviewState { review }
    }

    /// Answers an input, given what the review would become by it and what it
    /// would ask for. Where the input does not reach the review, the review stays
    /// as it is.
    pub fn handle_input<A>(
        &mut self,
        action: &InputAction,
        after: R,
        answer: TransactionReviewAction<A>,
    ) -> (r: TabbedTransactionReviewAction<A>)
        ensures
            r == answered(*action, answer),
            final(self).review == (if kept_back::<A>(*action) is Some {
                old(self).review
            } else {
                after
            }),
    {
        match action {
            InputAction::CycleNext => TabbedTransactionReviewAction::CycleNext,
            InputAction::CyclePrev => TabbedTransactionReviewAction::CyclePrev,
            _ => {
                self.review = after;
                match answer {
                    TransactionReviewAction::Cancel => TabbedTransactionReviewAction::RequestQuit,
                    TransactionReviewAction::Other(a) => TabbedTransactionReviewAction::Review(a),
                }
            },
        }
    }
}

/// What stands in place of the decisions where there are none.
pub fn render_empty(decisions: usize) -> (r: Option<Line>)
    ensures
        r.deep_view() == (if decisions == 0 {
            Some(line("No decisions staged"@, ink(Color::DarkGray)))
        } else {
            None
        }),
{
    if decisions == 0 {
        Some(Line::styled("No decisions staged", ink(Color::DarkGray)))
    } else {
        None
    }
}

/// The view asks whether to quit exactly where the review sees the input and asks
/// to be left.
pub proof fn law_leaving_means_quitting<A>(action: InputAction, answer: TransactionReviewAction<A>)
    ensures
        answered(action, answer) is RequestQuit <==> kept_back::<A>(action) is None
            && answer is Cancel,
{
}

/// Going from tab to tab is kept from the review; every other input reaches it,
/// and its answer comes through, where leaving it means to quit.
pub proof fn law_tabs_are_kept_from_the_review<A>(
    action: InputAction,
    answer: TransactionReviewAction<A>,
)
    ensures
        kept_back::<A>(action) is Some <==> action is CycleNext || action is CyclePrev,
        answered(action, answer) is CycleNext <==> action is CycleNext,
        answered(action, answer) is CyclePrev <==> action is CyclePrev,
        !(action is CycleNext || action is CyclePrev) && answer is Cancel ==> answered(
            action,
            answer,
        ) is RequestQuit,
        !(action is CycleNext || action is CyclePrev) && answer is Other ==> answered(
            action,
            answer,
        ) == TabbedTransactionReviewAction::Review(answer->Other_0),
{
}

} // verus!
