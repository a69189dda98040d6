//! A list to pick one option from.

use vstd::prelude::*;

use crate::input::{KeyCode, KeyEvent};
use crate::screen::{ink, line, line_of, list2, nothing, put, span, Color, Line, LineModel, Span, Style};
use crate::text::{self, decimal};

verus! {

/// An option.
#[derive(Debug)]
pub struct PickerOption {
    pub label: String,
    pub description: Option<String>,
    /// What it stands for
    pub value: String,
}

/// The model of a [`PickerOption`].
pub struct PickerOptionModel {
    pub label: Seq<char>,
    pub description: Option<Seq<char>>,
    pub value: Seq<char>,
}

impl DeepView for PickerOption {
    type V = PickerOptionModel;

    open spec fn deep_view(&self) -> PickerOptionModel {
        PickerOptionModel {
            label: self.label@,
            description: self.description.deep_view(),
            value: self.value@,
        }
    }
}

/// What came of picking.
#[derive(Debug)]
pub enum PickerResult {
    /// The value of an option
    Selected(String),
    /// None
    Cancelled,
}

/// The model of a [`PickerResult`].
pub enum PickerOutcome {
    Selected(Seq<char>),
    Cancelled,
}

impl DeepView for PickerResult {
    type V = PickerOutcome;

    open spec fn deep_view(&self) -> PickerOutcome {
        match self {
            PickerResult::Selected(s) => PickerOutcome::Selected(s@),
            PickerResult::Cancelled => PickerOutcome::Cancelled,
        }
    }
}

/// The picker.
#[derive(Debug)]
pub struct Picker {
    pub options: Vec<PickerOption>,
    /// The option in hand
    pub selected: usize,
    pub title: String,
    pub description: Option<String>,
}

/// The model of a [`Picker`].
pub struct PickerModel {
    pub options: Seq<PickerOptionModel>,
    pub selected: usize,
    pub title: Seq<char>,
    pub description: Option<Seq<char>>,
}

impl View for Picker {
    type V = PickerModel;

    open spec fn view(&self) -> PickerModel {
        PickerModel {
            options: self.options.deep_view(),
            selected: self.selected,
            title: self.title@,
            description: self.description.deep_view(),
        }
    }
}

impl PickerModel {
    /// One of the options is in hand.
    pub open spec fn wf(self) -> bool {
        self.selected < self.options.len() <= usize::MAX
    }

    /// Whether there are the options that a key needs: one to go on to, one to go
    /// back to from the first, and for Enter the one in hand.
    pub open spec fn takes(self, key: KeyEvent) -> bool {
        match key.code {
            KeyCode::Up => self.selected > 0 || self.options.len() > 0,
            KeyCode::Down => self.options.len() > 0,
            KeyCode::Enter => self.selected < self.options.len(),
            _ => true,
        }
    }

    /// The option after, round the end.
    pub open spec fn after(self) -> Self {
        PickerModel {
            selected: if self.selected + 1 >= self.options.len() {
                0
            } else {
                (self.selected + 1) as usize
            },
            ..self
        }
    }

    /// The option before, round the end.
    pub open spec fn before(self) -> Self {
        PickerModel {
            selected: if self.selected == 0 {
                (self.options.len() - 1) as usize
            } else {
                (self.selected - 1) as usize
            },
            ..self
        }
    }

    /// The answer to a key.
    pub open spec fn key_step(self, key: KeyEvent) -> (PickerModel, Option<PickerOutcome>) {
        match key.code {
            KeyCode::Up => (self.before(), None),
            KeyCode::Down => (self.after(), None),
            KeyCode::Enter => (
                self,
                Some(PickerOutcome::Selected(self.options[self.selected as int].value)),
            ),
            KeyCode::Esc => (self, Some(PickerOutcome::Cancelled)),
            _ => (self, None),
        }
    }

    /// The lines of the options, each with its number.
    pub open spec fn lines(self) -> Seq<LineModel> {
        Seq::new(
            self.options.len(),
            |i: int|
                line_of(
                    list2(
                        span("["@ + decimal((i + 1) as nat) + "] "@, ink(Color::Yellow)),
                        span(self.options[i].label, Style::plain()),
                    ),
                ),
        )
    }

    /// The title.
    pub open spec fn title_line(self) -> LineModel {
        line(self.title, ink(Color::Cyan).bold())
    }
}

impl Picker {
    /// A picker on its first option.
    pub fn new(title: String, options: Vec<PickerOption>) -> (r: Self)
        ensures
            r@ == (PickerModel {
                options: options.deep_view(),
                selected: 0,
                title: title@,
                description: None,
            }),
            options.len() > 0 ==> r@.wf(),
    {
        Picker { options, selected: 0, title, description: None }
    }

    /// The picker with a description.
    pub fn with_description(self, desc: String) -> (r: Self)
        ensures
            r@ == (PickerModel { description: Some(desc@), ..self@ }),
    {
        Picker {
            options: self.options,
            selected: self.selected,
            title: self.title,
            description: Some(desc),
        }
    }

    /// Takes the option after, round the end.
    pub fn next(&mut self)
        requires
            old(self)@.options.len() > 0,
        ensures
            final(self)@ == old(self)@.after(),
            old(self)@.wf() ==> final(self)@.wf(),
    {
        proof {
            assert(self@.options.len() == self.options.len());
        }
        if self.selected >= self.options.len() - 1 {
            self.selected = 0;
        } else {
            self.selected = self.selected + 1;
        }
    }

    /// Takes the option before, round the end.
    pub fn previous(&mut self)
        requires
            old(self)@.selected > 0 || old(self)@.options.len() > 0,
        ensures
            final(self)@ == old(self)@.before(),
            old(self)@.wf() ==> final(self)@.wf(),
    {
        proof {
            assert(self@.options.len() == self.options.len());
        }
        if self.selected == 0 {
            self.selected = self.options.len() - 1;
        } else {
            self.selected = self.selected - 1;
        }
    }

    /// Answers a key. A result ends the picking.
    pub fn handle_key(&mut self, key: KeyEvent) -> (r: Option<PickerResult>)
        requires
            old(self)@.takes(key),
        ensures
            (final(self)@, r.deep_view()) == old(self)@.key_step(key),
            old(self)@.wf() ==> final(self)@.wf(),
    {
        match key.code {
            KeyCode::Up => {
                self.previous();
                None
            },
            KeyCode::Down => {
                self.next();
                None
            },
            KeyCode::Enter => Some(
                PickerResult::Selected(self.options[self.selected].value.clone()),
            ),
            KeyCode::Esc => Some(PickerResult::Cancelled),
            _ => None,
        }
    }

    /// The title.
    pub fn render_title(&self) -> (r: Line)
        ensures
            r.deep_view() == self@.title_line(),
    {
        Line::styled(self.title.as_str(), ink(Color::Cyan).bold())
    }

    /// The lines of the options.
    pub fn render_options(&self) -> (r: Vec<Line>)
        ensures
            r.deep_view() == self@.lines(),
    {
        let ghost want = self@.lines();
        let mut lines: Vec<Line> = nothing();
        let mut i: usize = 0;
        while i < self.options.len()
            invariant
                i <= self.options.len(),
                want == self@.lines(),
                lines.len() == i,
                forall|k: int| 0 <= k < i ==> (#[trigger] lines[k]).deep_view() == want[k],
            decreases self.options.len() - i,
        {
            let mut spans: Vec<Span> = nothing();
            put(
                &mut spans,
                Span::styled(
                    text::cat3("[", text::place(i).as_str(), "] ").as_str(),
                    ink(Color::Yellow),
                ),
            );
            put(&mut spans, Span::raw(self.options[i].label.as_str()));
            lines.push(Line::of(spans));
            i = i + 1;
        }
        proof {
            assert(lines.deep_view() =~= want);
        }
        lines
    }
}

/// The keys.
pub fn picker_instructions() -> (r: &'static str)
    ensures
        r@ == "↑/↓: Navigate  Enter: Select  Esc: Cancel"@,
{
    "↑/↓: Navigate  Enter: Select  Esc: Cancel"
}

/// Going on and back again comes to the same option.
pub proof fn law_previous_undoes_next(m: PickerModel)
    requires
        m.wf(),
    ensures
        m.after().before() == m,
        m.before().after() == m,
{
}

/// Going on from the last option comes to the first.
pub proof fn law_picker_goes_round(m: PickerModel)
    requires
        m.wf(),
        m.selected == m.options.len() - 1,
    ensures
        m.after().selected == 0,
{
}

/// Enter takes the value of the option in hand, Esc none; the arrows go option by
/// option and round the ends.
pub proof fn law_option_in_hand_is_taken(m: PickerModel, key: KeyEvent)
    requires
        m.wf(),
    ensures
        ({
            let n = m.key_step(key);
            &&& n.1 is Some && n.1->0 is Selected <==> key.code == KeyCode::Enter
            &&& key.code == KeyCode::Enter ==> n.1 == Some(
                PickerOutcome::Selected(m.options[m.selected as int].value),
            )
            &&& n.1 is Some && n.1->0 is Cancelled <==> key.code == KeyCode::Esc
            &&& n.0.options == m.options
            &&& key.code == KeyCode::Down ==> n.0.selected as int % m.options.len() as int == (
            m.selected + 1) % m.options.len() as int
            &&& key.code == KeyCode::Up ==> m.selected as int == (n.0.selected + 1)
                % m.options.len() as int
            &&& key.code != KeyCode::Up && key.code != KeyCode::Down ==> n.0.selected == m.selected
        }),
{
    let len = m.options.len() as int;
    let s = m.selected as int;
    if s + 1 < len {
        vstd::arithmetic::div_mod::lemma_small_mod((s + 1) as nat, len as nat);
    } else {
        vstd::arithmetic::div_mod::lemma_mod_self_0(len);
        vstd::arithmetic::div_mod::lemma_small_mod(0, len as nat);
    }
    vstd::arithmetic::div_mod::lemma_small_mod(s as nat, len as nat);
    vstd::arithmetic::div_mod::lemma_mod_self_0(len);
}

/// Each option is shown with its number and its label.
pub proof fn law_options_are_numbered(m: PickerModel, i: int)
    requires
        0 <= i < m.options.len(),
    ensures
        m.lines().len() == m.options.len(),
        m.lines()[i].spans[0].text == "["@ + decimal((i + 1) as nat) + "] "@,
        m.lines()[i].spans[1].text == m.options[i].label,
{
}

} // verus!
