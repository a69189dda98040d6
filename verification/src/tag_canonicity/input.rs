//! How the modal answers keys.

use vstd::prelude::*;

use crate::input::{KeyCode, KeyEvent};
use crate::tag_canonicity::state::{CanonicityModel, TagCanonicalityModal, TagCanonicalityState};
use crate::text::trimmed;

verus! {

/// What the modal asks for.
#[derive(Debug, Clone, Copy, PartialEq, Eq, Structural)]
pub enum TagCanonicalityAction {
    /// Nothing
    Nothing,
    /// Stage the decision and go on
    Confirmed,
    /// Leave
    Cancelled,
    /// Go to another group; nothing is staged
    Navigate {
        /// To the next one
        forward: bool,
    },
    /// Show all decisions
    ShowReview,
}

impl CanonicityModel {
    /// The answer to a key.
    pub open spec fn key_step(self, key: KeyEvent) -> (CanonicityModel, TagCanonicalityAction) {
        match key.code {
            KeyCode::Up => (self.up(), TagCanonicalityAction::Nothing),
            KeyCode::Down => (self.down(), TagCanonicalityAction::Nothing),
            KeyCode::Enter => (
                self,
                if self.ready() {
                    TagCanonicalityAction::Confirmed
                } else {
                    TagCanonicalityAction::Nothing
                },
            ),
            KeyCode::Tab => (self, TagCanonicalityAction::Navigate { forward: !key.shift }),
            KeyCode::BackTab => (self, TagCanonicalityAction::Navigate { forward: false }),
            KeyCode::Esc => (self, TagCanonicalityAction::Cancelled),
            code => if (code == KeyCode::Char('r') || code == KeyCode::Char('R')) && key.control {
                (self, TagCanonicalityAction::ShowReview)
            } else if code == KeyCode::Char(' ') && self.cursor >= 0 {
                (self.toggled_here(), TagCanonicalityAction::Nothing)
            } else if self.cursor == -1 {
                (
                    CanonicityModel {
                        canonical_input: self.canonical_input.key_step(key),
                        ..self
                    },
                    TagCanonicalityAction::Nothing,
                )
            } else {
                (self, TagCanonicalityAction::Nothing)
            },
        }
    }
}

impl TagCanonicalityState {
    /// Answers a key.
    pub fn handle_key(&mut self, key: KeyEvent) -> (r: TagCanonicalityAction)
        requires
            old(self)@.wf(),
        ensures
            (final(self)@, r) == old(self)@.key_step(key),
            final(self)@.wf(),
    {
        if self.has_modal() {
            return self.handle_modal_key(key);
        }
        match key.code {
            KeyCode::Up => {
                self.cursor_up();
                TagCanonicalityAction::Nothing
            },
            KeyCode::Down => {
                self.cursor_down();
                TagCanonicalityAction::Nothing
            },
            KeyCode::Enter => {
                if self.can_submit() {
                    TagCanonicalityAction::Confirmed
                } else {
                    TagCanonicalityAction::Nothing
                }
            },
            KeyCode::Tab => TagCanonicalityAction::Navigate { forward: !key.shift },
            KeyCode::BackTab => TagCanonicalityAction::Navigate { forward: false },
            KeyCode::Esc => TagCanonicalityAction::Cancelled,
            code => {
                if (code == KeyCode::Char('r') || code == KeyCode::Char('R')) && key.control {
                    return TagCanonicalityAction::ShowReview;
                }
                if code == KeyCode::Char(' ') && self.cursor >= 0 {
                    self.toggle_selection();
                } else if self.cursor == -1 {
                    self.canonical_input.handle_key(key);
                }
                TagCanonicalityAction::Nothing
            },
        }
    }

    /// Answers a key while something lies over the modal: Esc takes it away.
    fn handle_modal_key(&mut self, key: KeyEvent) -> (r: TagCanonicalityAction)
        ensures
            r == TagCanonicalityAction::Nothing,
            final(self)@ == (if key.code == KeyCode::Esc {
                CanonicityModel { modal: TagCanonicalityModal::Nothing, ..old(self)@ }
            } else {
                old(self)@
            }),
    {
        if key.code == KeyCode::Esc {
            self.close_modal();
        }
        TagCanonicalityAction::Nothing
    }
}

/// A decision is staged only by Enter, with a value to squash to and something
/// to be squashed; and going to another group changes nothing.
pub proof fn law_confirmed_only_when_ready(m: CanonicityModel, key: KeyEvent)
    ensures
        m.key_step(key).1 == TagCanonicalityAction::Confirmed <==> (key.code == KeyCode::Enter
            && m.ready()),
        m.key_step(key).1 is Navigate ==> m.key_step(key).0 == m,
{
}

/// Space twice leaves the selection as it was.
pub proof fn law_space_twice(m: CanonicityModel)
    ensures
        m.toggled_here().toggled_here() == m,
{
    assert(m.toggled_here().toggled_here().selected =~= m.selected);
}

/// Up undoes down among the variants.
pub proof fn law_up_undoes_down(m: CanonicityModel)
    requires
        m.wf(),
        0 <= m.cursor < m.data.variants.len() - 1,
        !m.canonical_input.focused,
    ensures
        m.down().up() == m,
{
}

/// What each key is answered: Enter confirms where there is a value to squash to
/// and a variant to be squashed, Esc leaves, Tab goes on to the next group and with
/// Shift back, Ctrl and R shows the review; no other key is answered at all.
pub proof fn law_answers_of_keys(m: CanonicityModel, key: KeyEvent)
    requires
        m.wf(),
        m.selected.finite(),
    ensures
        m.key_step(key).1 == TagCanonicalityAction::Confirmed <==> key.code == KeyCode::Enter
            && trimmed(m.canonical_input.value).len() > 0 && exists|i: usize|
            m.selected.contains(i),
        m.key_step(key).1 == TagCanonicalityAction::Cancelled <==> key.code == KeyCode::Esc,
        m.key_step(key).1 == (TagCanonicalityAction::Navigate { forward: true }) <==> key.code
            == KeyCode::Tab && !key.shift,
        m.key_step(key).1 == (TagCanonicalityAction::Navigate { forward: false }) <==> key.code
            == KeyCode::BackTab || (key.code == KeyCode::Tab && key.shift),
        m.key_step(key).1 == TagCanonicalityAction::ShowReview <==> key.control && (key.code
            == KeyCode::Char('r') || key.code == KeyCode::Char('R')),
        m.key_step(key).0.data == m.data,
{
    crate::tag_canonicity::state::law_confirming_needs_value_and_variant(m);
}

/// Space on a variant switches that variant over and no other; on the text field
/// it is typed.
pub proof fn law_space_switches_one_variant(m: CanonicityModel, key: KeyEvent, i: usize)
    requires
        m.wf(),
        key.code == KeyCode::Char(' '),
    ensures
        m.key_step(key).0.selected.contains(i) <==> (if m.cursor == i && i
            < m.data.variants.len() {
            !m.selected.contains(i)
        } else {
            m.selected.contains(i)
        }),
        m.cursor == -1 && !key.control ==> m.key_step(key).0.canonical_input.value.len()
            == m.canonical_input.value.len() + 1,
        m.cursor >= 0 ==> m.key_step(key).0.canonical_input == m.canonical_input,
{
}

/// Up and Down go one variant at a time, from the text field at the top to the
/// last variant, and leave everything else alone. The text field has the focus
/// just when it is reached.
pub proof fn law_arrows_go_one_by_one(m: CanonicityModel, key: KeyEvent)
    requires
        m.wf(),
        key.code == KeyCode::Up || key.code == KeyCode::Down,
    ensures
        key.code == KeyCode::Up ==> m.key_step(key).0.cursor == (if m.cursor >= 0 {
            m.cursor - 1
        } else {
            -1
        }),
        key.code == KeyCode::Down ==> m.key_step(key).0.cursor == (if m.cursor + 1
            < m.data.variants.len() {
            m.cursor + 1
        } else {
            m.cursor as int
        }),
        m.key_step(key).0.cursor != m.cursor ==> m.key_step(key).0.canonical_input.focused == (
        m.key_step(key).0.cursor == -1),
        m.key_step(key).0.selected == m.selected,
        m.key_step(key).0.canonical_input.value == m.canonical_input.value,
{
}

/// A modal opens with every variant selected, and with the first of them typed in
/// where that is asked for.
pub proof fn law_modal_opens_with_all(
    data: crate::tag_canonicity::data::ModalDataModel,
    pre_fill: bool,
    index: usize,
    total: usize,
    i: usize,
)
    ensures
        CanonicityModel::opened(data, pre_fill, index, total).selected.contains(i) <==> i
            < data.variants.len(),
        CanonicityModel::opened(data, pre_fill, index, total).canonical_input.value == (
        if pre_fill && data.variants.len() > 0 {
            data.variants[0].value
        } else {
            Seq::empty()
        }),
        CanonicityModel::opened(data, pre_fill, index, total).data == data,
        CanonicityModel::opened(data, pre_fill, index, total).cursor == 0,
        CanonicityModel::opened(data, pre_fill, index, total).group_index == index,
        CanonicityModel::opened(data, pre_fill, index, total).total_groups == total,
{
}

} // verus!
