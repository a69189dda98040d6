//! What the operator's decisions ask of the service that keeps transactions.
//! Decisions are staged, reviewed, and then committed or dropped. What cannot be
//! taken back needs a gesture of the operator, and carries it: a gesture is made
//! here alone, from Enter or from a click on a button.

use vstd::prelude::*;

use crate::corpus::{DecisionKey, DecisionKeyModel, Mutation, MutationModel};
use crate::input::InputAction;
use crate::screen::Rect;

verus! {

/// Shows that the operator has confirmed something.
#[derive(Debug)]
pub struct ConfirmationGesture {
    seal: (),
}

impl ConfirmationGesture {
    /// The gesture that an input is, if it confirms.
    pub fn from_input(action: &InputAction) -> (r: Option<Self>)
        ensures
            r is Some <==> *action == InputAction::Confirm,
    {
        match action {
            InputAction::Confirm => Some(ConfirmationGesture { seal: () }),
            _ => None,
        }
    }

    /// The gesture that a click is, if it hits the area of a button.
    pub fn from_click(x: u16, y: u16, button: &Rect) -> (r: Option<Self>)
        ensures
            r is Some <==> button.covers(x, y),
    {
        if button.contains(x, y) {
            Some(ConfirmationGesture { seal: () })
        } else {
            None
        }
    }

    /// The same gesture, to be handed on.
    fn handed_on(&self) -> (r: Self)
        ensures
            r == *self,
    {
        ConfirmationGesture { seal: () }
    }
}

/// A decision: what is to be done, under a name.
#[derive(Debug)]
pub struct Decision {
    pub label: String,
    pub mutations: Vec<Mutation>,
}

/// The model of a [`Decision`].
pub struct DecisionModel {
    pub label: Seq<char>,
    pub mutations: Seq<MutationModel>,
}

impl DeepView for Decision {
    type V = DecisionModel;

    open spec fn deep_view(&self) -> DecisionModel {
        DecisionModel { label: self.label@, mutations: self.mutations.deep_view() }
    }
}

/// What is asked of the service.
#[derive(Debug)]
pub enum TransactionRequest {
    /// Stage a decision
    AddDecision { key: DecisionKey, decision: Decision },
    /// Carry out what is staged, as the operator has confirmed
    ConfirmTransaction { gesture: ConfirmationGesture },
    /// Drop what is staged
    DiscardTransaction,
    /// Drop one decision, as the operator has confirmed
    RemoveDecision { key: DecisionKey, gesture: ConfirmationGesture },
}

/// The model of a [`TransactionRequest`].
pub enum RequestModel {
    AddDecision { key: DecisionKeyModel, decision: DecisionModel },
    ConfirmTransaction { gesture: ConfirmationGesture },
    DiscardTransaction,
    RemoveDecision { key: DecisionKeyModel, gesture: ConfirmationGesture },
}

impl DeepView for TransactionRequest {
    type V = RequestModel;

    open spec fn deep_view(&self) -> RequestModel {
        match self {
            TransactionRequest::AddDecision { key, decision } => RequestModel::AddDecision {
                key: key.deep_view(),
                decision: decision.deep_view(),
            },
            TransactionRequest::ConfirmTransaction { gesture } => RequestModel::ConfirmTransaction {
                gesture: *gesture,
            },
            TransactionRequest::DiscardTransaction => RequestModel::DiscardTransaction,
            TransactionRequest::RemoveDecision { key, gesture } => RequestModel::RemoveDecision {
                key: key.deep_view(),
                gesture: *gesture,
            },
        }
    }
}

/// Stages a decision.
pub fn stage_decision(key: DecisionKey, decision: Decision) -> (r: TransactionRequest)
    ensures
        r.deep_view() == (RequestModel::AddDecision {
            key: key.deep_view(),
            decision: decision.deep_view(),
        }),
{
    TransactionRequest::AddDecision { key, decision }
}

/// Carries out what is staged.
pub fn commit_transaction(gesture: &ConfirmationGesture) -> (r: TransactionRequest)
    ensures
        r.deep_view() == (RequestModel::ConfirmTransaction { gesture: *gesture }),
{
    TransactionRequest::ConfirmTransaction { gesture: gesture.handed_on() }
}

/// Drops what is staged. That is always safe.
pub fn discard_transaction() -> (r: TransactionRequest)
    ensures
        r.deep_view() == RequestModel::DiscardTransaction,
{
    TransactionRequest::DiscardTransaction
}

/// Drops one decision.
pub fn remove_decision(key: &DecisionKey, gesture: &ConfirmationGesture) -> (r: TransactionRequest)
    ensures
        r.deep_view() == (RequestModel::RemoveDecision { key: key.deep_view(), gesture: *gesture }),
{
    TransactionRequest::RemoveDecision { key: key.clone(), gesture: gesture.handed_on() }
}

} // verus!
