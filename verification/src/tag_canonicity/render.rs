//! What the modal shows.

use vstd::prelude::*;

use crate::screen::{ink, line, line_of, list2, list3, nothing, put, span, Color, Line, LineModel, Pane, PaneModel, Span, Style};
use crate::tag_canonicity::data::{TagVariantEntry, VariantModel};
use crate::tag_canonicity::state::{CanonicityModel, TagCanonicalityState};
use crate::text::{self, decimal};
use crate::text_input::{TextInputModel, TextInputState};

verus! {

/// A text field: with a block at the cursor while it has the focus.
pub open spec fn input_line(t: TextInputModel, focused: bool) -> LineModel {
    if !focused {
        line(t.value, ink(Color::White))
    } else if t.cursor < t.value.len() {
        line_of(
            list3(
                span(t.value.take(t.cursor as int), ink(Color::White)),
                span(seq![t.value[t.cursor as int]], ink(Color::Black).bg(Color::White)),
                span(t.value.skip(t.cursor as int + 1), ink(Color::White)),
            ),
        )
    } else {
        line_of(
            list2(
                span(t.value.take(t.cursor as int), ink(Color::White)),
                span(" "@, ink(Color::Black).bg(Color::White)),
            ),
        )
    }
}

/// A text field.
pub fn render_input_line(t: &TextInputState, focused: bool) -> (r: Line)
    requires
        t@.wf(),
    ensures
        r.deep_view() == input_line(t@, focused),
{
    if !focused {
        return Line::styled(t.value(), ink(Color::White));
    }
    let (before, under, after) = t.cursor_splits();
    let n: usize = t.value().unicode_len();
    let mut spans: Vec<Span> = nothing();
    put(&mut spans, Span::styled(before.as_str(), ink(Color::White)));
    if t.cursor < n {
        put(&mut spans, Span::styled(under.as_str(), ink(Color::Black).bg(Color::White)));
        put(&mut spans, Span::styled(after.as_str(), ink(Color::White)));
    } else {
        put(&mut spans, Span::styled(" ", ink(Color::Black).bg(Color::White)));
    }
    Line::of(spans)
}

/// The label of the text field.
pub open spec fn input_label(pre_filled: bool) -> Seq<char> {
    if pre_filled {
        " Squash to: "@
    } else {
        " Album artist: "@
    }
}

/// A frame that has the focus or not.
#[verifier::allow_in_spec]
pub fn frame_style(focused: bool) -> Style
    returns
        (if focused {
            ink(Color::Cyan)
        } else {
            ink(Color::DarkGray)
        }),
{
    if focused {
        ink(Color::Cyan)
    } else {
        ink(Color::DarkGray)
    }
}

/// The line of a variant.
pub open spec fn variant_line(v: VariantModel, selected: bool, in_hand: bool) -> LineModel {
    line_of(
        seq![
            span(
                (if selected {
                    "[x]"@
                } else {
                    "[ ]"@
                }) + " "@ + v.value + " ("@ + (decimal(v.count as nat) + ")"@),
                if in_hand {
                    ink(Color::Yellow).bold()
                } else if selected {
                    ink(Color::Green)
                } else {
                    ink(Color::White)
                },
            ),
        ],
    )
}

/// The line of a variant.
fn show_variant(v: &TagVariantEntry, selected: bool, in_hand: bool) -> (r: Line)
    ensures
        r.deep_view() == variant_line(v.deep_view(), selected, in_hand),
{
    let tail: String = text::cat2(text::count(v.count).as_str(), ")");
    Line::one(
        text::cat5(
            if selected {
                "[x]"
            } else {
                "[ ]"
            },
            " ",
            v.value.as_str(),
            " (",
            tail.as_str(),
        ).as_str(),
        if in_hand {
            ink(Color::Yellow).bold()
        } else if selected {
            ink(Color::Green)
        } else {
            ink(Color::White)
        },
    )
}

impl CanonicityModel {
    /// The title, with which group of how many it is.
    pub open spec fn title(self) -> Seq<char> {
        let group = " ("@ + decimal(self.group_index as nat + 1) + "/"@ + decimal(
            self.total_groups as nat,
        ) + ") "@;
        match self.data.context_label {
            Some(context) => " Set "@ + self.data.tag_name + " - "@ + context + group,
            None => " Squash \""@ + self.data.tag_name + "\" variants"@ + group,
        }
    }

    /// The text field.
    pub open spec fn input_view(self) -> PaneModel {
        PaneModel {
            title: input_label(self.pre_filled),
            lines: seq![input_line(self.canonical_input, self.cursor == -1)],
            border: frame_style(self.cursor == -1),
        }
    }

    /// The list of variants.
    pub open spec fn variants_view(self) -> PaneModel {
        PaneModel {
            title: " Variants (Space to toggle) "@,
            lines: Seq::new(
                self.data.variants.len(),
                |i: int|
                    variant_line(
                        self.data.variants[i],
                        self.selected.contains(i as usize),
                        i == self.cursor,
                    ),
            ),
            border: frame_style(self.cursor >= 0),
        }
    }

    /// The keys.
    pub open spec fn hints(self) -> Seq<char> {
        if self.cursor == -1 {
            "[↑↓] navigate  [Enter] confirm  [Tab] next  [Ctrl+R] review  [Esc] cancel"@
        } else {
            "[Space] toggle  [↑↓] navigate  [Enter] confirm  [Tab] next  [Ctrl+R] review  [Esc] cancel"@
        }
    }
}

impl TagCanonicalityState {
    /// The title.
    pub fn render_title(&self) -> (r: String)
        ensures
            r@ == self@.title(),
    {
        let group: String = text::cat5(
            " (",
            text::place(self.group_index).as_str(),
            "/",
            text::count(self.total_groups).as_str(),
            ") ",
        );
        match &self.data.context_label {
            Some(context) => text::cat5(
                " Set ",
                self.data.tag_name.as_str(),
                " - ",
                context.as_str(),
                group.as_str(),
            ),
            None => text::cat4(
                " Squash \"",
                self.data.tag_name.as_str(),
                "\" variants",
                group.as_str(),
            ),
        }
    }

    /// The text field.
    pub fn render_canonical_input(&self) -> (r: Pane)
        requires
            self@.wf(),
        ensures
            r.deep_view() == self@.input_view(),
    {
        let focused: bool = self.is_on_text_field();
        let mut lines: Vec<Line> = nothing();
        put(&mut lines, render_input_line(&self.canonical_input, focused));
        Pane {
            title: if self.pre_filled {
                " Squash to: ".to_owned()
            } else {
                " Album artist: ".to_owned()
            },
            lines,
            border: frame_style(focused),
        }
    }

    /// The list of variants.
    pub fn render_variants_list(&self) -> (r: Pane)
        ensures
            r.deep_view() == self@.variants_view(),
    {
        let ghost want = self@.variants_view().lines;
        let mut lines: Vec<Line> = nothing();
        let mut i: usize = 0;
        while i < self.data.variants.len()
            invariant
                i <= self.data.variants.len(),
                want == self@.variants_view().lines,
                lines.len() == i,
                forall|k: int| 0 <= k < i ==> (#[trigger] lines[k]).deep_view() == want[k],
            decreases self.data.variants.len() - i,
        {
            lines.push(
                show_variant(
                    &self.data.variants[i],
                    self.selected.contains(&i),
                    self.cursor >= 0 && i == self.cursor as usize,
                ),
            );
            i = i + 1;
        }
        proof {
            assert(lines.deep_view() =~= want);
        }
        Pane {
            title: " Variants (Space to toggle) ".to_owned(),
            lines,
            border: frame_style(self.cursor >= 0),
        }
    }

    /// The keys.
    pub fn render_controls_hint(&self) -> (r: &'static str)
        ensures
            r@ == self@.hints(),
    {
        if self.cursor == -1 {
            "[↑↓] navigate  [Enter] confirm  [Tab] next  [Ctrl+R] review  [Esc] cancel"
        } else {
            "[Space] toggle  [↑↓] navigate  [Enter] confirm  [Tab] next  [Ctrl+R] review  [Esc] cancel"
        }
    }
}

/// Each variant has a line with its value and count, crossed where it is selected,
/// and bold where it is in hand.
pub proof fn law_variants_are_shown(m: CanonicityModel, i: int)
    requires
        0 <= i < m.data.variants.len() <= usize::MAX,
    ensures
        ({
            let l = m.variants_view().lines[i].spans[0];
            let v = m.data.variants[i];
            let text = " "@ + v.value + " ("@ + (decimal(v.count as nat) + ")"@);
            &&& m.variants_view().lines.len() == m.data.variants.len()
            &&& m.selected.contains(i as usize) ==> l.text =~= "[x]"@ + text
            &&& !m.selected.contains(i as usize) ==> l.text =~= "[ ]"@ + text
            &&& l.style.bold <==> i == m.cursor
        }),
{
}

/// The value that is written is shown as it is, with the place of the cursor where
/// it is in hand.
pub proof fn law_written_value_is_shown(t: TextInputModel, focused: bool)
    requires
        t.wf(),
    ensures
        ({
            let s = input_line(t, focused).spans;
            &&& !focused ==> s.len() == 1 && s[0].text == t.value
            &&& focused && t.cursor < t.value.len() ==> s.len() == 3 && s[0].text + s[1].text
                + s[2].text == t.value && s[0].text.len() == t.cursor && s[1].text.len() == 1
            &&& focused && t.cursor == t.value.len() ==> s.len() == 2 && s[0].text == t.value
        }),
{
    let s = input_line(t, focused).spans;
    if focused && t.cursor < t.value.len() {
        assert(s[0].text + s[1].text + s[2].text =~= t.value);
    }
    if focused && t.cursor == t.value.len() {
        assert(s[0].text =~= t.value);
    }
}

/// The title names the tag, its context where there is one, and the group.
pub proof fn law_title_names_the_tag(m: CanonicityModel)
    ensures
        ({
            let group = " ("@ + decimal(m.group_index as nat + 1) + "/"@ + decimal(
                m.total_groups as nat,
            ) + ") "@;
            &&& m.data.context_label is Some ==> m.title() == " Set "@ + m.data.tag_name + " - "@
                + m.data.context_label->0 + group
            &&& m.data.context_label is None ==> m.title() == " Squash \""@ + m.data.tag_name
                + "\" variants"@ + group
        }),
{
}

} // verus!
