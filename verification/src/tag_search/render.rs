//! What the search shows.

use vstd::prelude::*;

use crate::screen::{blank, ink, line, line_of, list3, list4, list5, nothing, put, put_all, span, Color, Line, LineModel, Pane, PaneModel, Span, SpanModel, Style};
use crate::tag_search::evaluate::{AudioFileWithTags, TaggedFileModel};
use crate::tag_search::state::{SearchModel, TagSearchState};
use crate::tag_search::types::{ConditionModel, ConditionType, QueryFieldFocus, SearchCondition, TagSearchModal};
use crate::text::{self, begins_with, decimal, padded};
use crate::text_input::{TextInputModel, TextInputState};

verus! {

/// A line with its place in a pane.
#[derive(Debug)]
pub struct PlacedLine {
    pub x: u16,
    pub y: u16,
    pub line: Line,
}

/// The model of a [`PlacedLine`].
pub struct PlacedLineModel {
    pub x: u16,
    pub y: u16,
    pub line: LineModel,
}

impl DeepView for PlacedLine {
    type V = PlacedLineModel;

    open spec fn deep_view(&self) -> PlacedLineModel {
        PlacedLineModel { x: self.x, y: self.y, line: self.line.deep_view() }
    }
}

/// A colour as text, or as ground while it has the focus.
#[verifier::allow_in_spec]
pub fn chip(focused: bool, color: Color, text_color: Color) -> Style
    returns
        (if focused {
            Style::plain().bg(color).fg(text_color)
        } else {
            ink(color)
        }),
{
    if focused {
        Style::plain().bg(color).fg(text_color)
    } else {
        ink(color)
    }
}

/// How a text to be typed looks.
#[verifier::allow_in_spec]
pub fn field_style(focused: bool) -> Style
    returns
        (if focused {
            Style::plain().bg(Color::DarkGray).fg(Color::White)
        } else {
            ink(Color::White)
        }),
{
    if focused {
        Style::plain().bg(Color::DarkGray).fg(Color::White)
    } else {
        ink(Color::White)
    }
}

/// A text to be typed: with its cursor while it has the focus, else what
/// stands in it, or a hint where nothing does.
pub open spec fn field_text(t: TextInputModel, focused: bool, hint: Seq<char>) -> Seq<char> {
    if focused {
        if t.cursor < t.value.len() {
            t.value
        } else {
            t.value + seq![' ']
        }
    } else if t.value.len() == 0 {
        hint
    } else {
        t.value
    }
}

fn field_display(t: &TextInputState, focused: bool, hint: &str) -> (r: String)
    requires
        t@.wf(),
    ensures
        r@ == field_text(t@, focused, hint@),
{
    if focused {
        let (before, under, after) = t.cursor_splits();
        let r: String = text::cat3(before.as_str(), under.as_str(), after.as_str());
        proof {
            assert(r@ =~= field_text(t@, focused, hint@));
        }
        r
    } else if t.is_empty() {
        hint.to_owned()
    } else {
        t.value().to_owned()
    }
}

/// The unit of a range.
pub open spec fn unit_of(t: ConditionType) -> Seq<char> {
    match t {
        ConditionType::SampleRate => "Hz"@,
        ConditionType::Bitrate => "kbps"@,
        ConditionType::Duration => "sec"@,
        _ => ""@,
    }
}

/// The parts of a condition, by what it is about. `at` is the part that has the
/// focus, if it is in this condition.
pub open spec fn condition_parts(c: ConditionModel, at: Option<QueryFieldFocus>) -> Seq<SpanModel> {
    match c.condition_type {
        ConditionType::Tag => list5(
            span(
                padded(
                    field_text(c.tag_name, at == Some(QueryFieldFocus::TagName), "<tag>"@),
                    12,
                ),
                field_style(at == Some(QueryFieldFocus::TagName)),
            ),
            span(" "@, Style::plain()),
            span(
                padded(c.comparison.words(), 8),
                chip(at == Some(QueryFieldFocus::Comparison), Color::Magenta, Color::Black),
            ),
            span(" "@, Style::plain()),
            span(
                field_text(c.value, at == Some(QueryFieldFocus::Value), "<value>"@),
                field_style(at == Some(QueryFieldFocus::Value)),
            ),
        ),
        ConditionType::FileType => seq![
            span(
                "["@ + c.file_type_category.words() + "]"@,
                chip(at == Some(QueryFieldFocus::FileTypeCategory), Color::Green, Color::Black),
            ),
        ],
        _ => list4(
            span(
                padded(
                    field_text(c.range_min, at == Some(QueryFieldFocus::RangeMin), "<min>"@),
                    8,
                ),
                field_style(at == Some(QueryFieldFocus::RangeMin)),
            ),
            span(" to "@, ink(Color::DarkGray)),
            span(
                padded(
                    field_text(c.range_max, at == Some(QueryFieldFocus::RangeMax), "<max>"@),
                    8,
                ),
                field_style(at == Some(QueryFieldFocus::RangeMax)),
            ),
            span(" "@ + unit_of(c.condition_type), ink(Color::DarkGray)),
        ),
    }
}

/// The row of a condition. The first has no operator.
pub open spec fn condition_row(
    c: ConditionModel,
    first: bool,
    at: Option<QueryFieldFocus>,
) -> LineModel {
    line_of(
        list3(
            if first {
                span("    "@, Style::plain())
            } else {
                span(
                    padded(c.operator.words(), 4),
                    chip(at == Some(QueryFieldFocus::Operator), Color::Yellow, Color::Black),
                )
            },
            span(
                "["@ + padded(c.condition_type.words(), 4) + "]"@,
                chip(at == Some(QueryFieldFocus::ConditionType), Color::Blue, Color::White),
            ),
            span(" "@, Style::plain()),
        ) + condition_parts(c, at),
    )
}

/// The parts of a condition.
fn show_condition_parts(c: &SearchCondition, at: Option<QueryFieldFocus>) -> (r: Vec<Span>)
    requires
        c.deep_view().wf(),
    ensures
        r.deep_view() == condition_parts(c.deep_view(), at),
{
    let mut spans: Vec<Span> = nothing();
    match c.condition_type {
        ConditionType::Tag => {
            let on: bool = is_at(at, QueryFieldFocus::TagName);
            let name: String = field_display(&c.tag_name, on, "<tag>");
            put(
                &mut spans,
                Span::styled(text::pad(name.as_str(), 12).as_str(), field_style(on)),
            );
            put(&mut spans, Span::raw(" "));
            put(
                &mut spans,
                Span::styled(
                    text::pad(c.comparison.label(), 8).as_str(),
                    chip(
                        is_at(at, QueryFieldFocus::Comparison),
                        Color::Magenta,
                        Color::Black,
                    ),
                ),
            );
            put(&mut spans, Span::raw(" "));
            let on: bool = is_at(at, QueryFieldFocus::Value);
            let value: String = field_display(&c.value, on, "<value>");
            put(&mut spans, Span::styled(value.as_str(), field_style(on)));
        },
        ConditionType::FileType => {
            put(
                &mut spans,
                Span::styled(
                    text::cat3("[", c.file_type_category.label(), "]").as_str(),
                    chip(
                        is_at(at, QueryFieldFocus::FileTypeCategory),
                        Color::Green,
                        Color::Black,
                    ),
                ),
            );
        },
        _ => {
            let on: bool = is_at(at, QueryFieldFocus::RangeMin);
            let min: String = field_display(&c.range_min, on, "<min>");
            put(
                &mut spans,
                Span::styled(text::pad(min.as_str(), 8).as_str(), field_style(on)),
            );
            put(&mut spans, Span::styled(" to ", ink(Color::DarkGray)));
            let on: bool = is_at(at, QueryFieldFocus::RangeMax);
            let max: String = field_display(&c.range_max, on, "<max>");
            put(
                &mut spans,
                Span::styled(text::pad(max.as_str(), 8).as_str(), field_style(on)),
            );
            let unit: &str = match c.condition_type {
                ConditionType::SampleRate => "Hz",
                ConditionType::Bitrate => "kbps",
                ConditionType::Duration => "sec",
                _ => "",
            };
            put(
                &mut spans,
                Span::styled(text::cat2(" ", unit).as_str(), ink(Color::DarkGray)),
            );
        },
    }
    spans
}

fn is_at(at: Option<QueryFieldFocus>, f: QueryFieldFocus) -> (r: bool)
    ensures
        r == (at == Some(f)),
{
    match at {
        Some(g) => g == f,
        None => false,
    }
}

/// The row of a condition.
pub fn render_condition_row(
    c: &SearchCondition,
    first: bool,
    at: Option<QueryFieldFocus>,
) -> (r: Line)
    requires
        c.deep_view().wf(),
    ensures
        r.deep_view() == condition_row(c.deep_view(), first, at),
{
    let mut spans: Vec<Span> = nothing();
    if first {
        put(&mut spans, Span::raw("    "));
    } else {
        put(
            &mut spans,
            Span::styled(
                text::pad(c.operator.label(), 4).as_str(),
                chip(is_at(at, QueryFieldFocus::Operator), Color::Yellow, Color::Black),
            ),
        );
    }
    put(
        &mut spans,
        Span::styled(
            text::cat3("[", text::pad(c.condition_type.label(), 4).as_str(), "]").as_str(),
            chip(is_at(at, QueryFieldFocus::ConditionType), Color::Blue, Color::White),
        ),
    );
    put(&mut spans, Span::raw(" "));
    put_all(&mut spans, show_condition_parts(c, at));
    Line::of(spans)
}

/// How many conditions are shown in a pane: each takes a row and the one below
/// it, and three rows are kept for the buttons.
pub open spec fn rows_shown(n: nat, height: u16) -> nat {
    let fit = if height < 4 {
        0nat
    } else {
        ((height - 4) / 2 + 1) as nat
    };
    if n < fit {
        n
    } else {
        fit
    }
}

impl SearchModel {
    /// The part of a condition that has the focus.
    pub open spec fn focus_in(self, i: int) -> Option<QueryFieldFocus> {
        if self.focused_condition == i {
            Some(self.field_focus)
        } else {
            None
        }
    }

    /// The first rows of conditions.
    pub open spec fn rows(self, n: nat) -> Seq<PlacedLineModel> {
        Seq::new(
            n,
            |i: int|
                PlacedLineModel {
                    x: 0,
                    y: (2 * i) as u16,
                    line: condition_row(self.conditions[i], i == 0, self.focus_in(i)),
                },
        )
    }

    /// The buttons under the conditions, as far as there is room.
    pub open spec fn buttons(self, y: int, width: u16, height: u16) -> Seq<PlacedLineModel> {
        let adds = y + 2 < height;
        let search_y = if adds {
            y + 2
        } else {
            y
        };
        (if adds {
            seq![
                PlacedLineModel {
                    x: 2,
                    y: y as u16,
                    line: line_of(
                        seq![
                            span(
                                "[+ Add another condition]"@,
                                if self.field_focus == QueryFieldFocus::AddCondition {
                                    ink(Color::Cyan).bold()
                                } else {
                                    ink(Color::DarkGray)
                                },
                            ),
                        ],
                    ),
                },
            ]
        } else {
            Seq::empty()
        }) + (if search_y < height {
            seq![
                PlacedLineModel {
                    x: if width >= 12 {
                        ((width - 12) / 2) as u16
                    } else {
                        0
                    },
                    y: search_y as u16,
                    line: line_of(
                        seq![
                            span(
                                "[ Search ]"@,
                                if self.field_focus == QueryFieldFocus::SearchButton {
                                    Style::plain().bg(Color::Cyan).fg(Color::Black).bold()
                                } else {
                                    ink(Color::Cyan)
                                },
                            ),
                        ],
                    ),
                },
            ]
        } else {
            Seq::empty()
        })
    }

    /// The conditions and the buttons in a pane of this size.
    pub open spec fn query_lines(self, width: u16, height: u16) -> Seq<PlacedLineModel> {
        let n = rows_shown(self.conditions.len(), height);
        self.rows(n) + self.buttons(2 * n as int, width, height)
    }

    /// The modal.
    pub open spec fn modal_view(self) -> Option<PaneModel> {
        match self.modal {
            None => None,
            Some(TagSearchModal::NoResults) => Some(
                PaneModel {
                    title: "Search Results"@,
                    lines: list4(
                        blank(),
                        line("No results found"@, ink(Color::White)),
                        blank(),
                        line("[ OK ]"@, ink(Color::Cyan).bold()),
                    ),
                    border: Style::plain(),
                },
            ),
            Some(TagSearchModal::GatheringTags) => Some(
                PaneModel {
                    title: "Bulk Edit"@,
                    lines: list3(
                        blank(),
                        line(
                            "Gathering tags for "@ + decimal(
                                match self.pending_bulk_edit {
                                    Some(files) => files.len(),
                                    None => 0,
                                },
                            ) + " files..."@,
                            ink(Color::Yellow),
                        ),
                        blank(),
                    ),
                    border: Style::plain(),
                },
            ),
        }
    }

    /// The results.
    pub open spec fn results_view(self) -> PaneModel {
        PaneModel {
            title: "Results ("@ + decimal(self.results.len()) + " tracks)"@,
            lines: Seq::new(
                self.results.len(),
                |i: int| result_line(self.results[i], i == self.results_selected),
            ),
            border: Style::plain(),
        }
    }
}

/// A path without the name of the corpus before it.
pub open spec fn short_path(p: Seq<char>) -> Seq<char> {
    if begins_with(p, "corpus/"@) {
        p.skip("corpus/"@.len() as int)
    } else {
        p
    }
}

/// The line of a result.
pub open spec fn result_line(f: TaggedFileModel, in_hand: bool) -> LineModel {
    line(
        (if in_hand {
            "▶ "@
        } else {
            "  "@
        }) + short_path(f.audio_file.path),
        if in_hand {
            ink(Color::White).bold()
        } else {
            ink(Color::White)
        },
    )
}

/// The line of a result.
fn show_result(f: &AudioFileWithTags, in_hand: bool) -> (r: Line)
    ensures
        r.deep_view() == result_line(f.deep_view(), in_hand),
{
    let p: &str = f.audio_file.path();
    let root: &str = "corpus/";
    let cut: &str = if text::starts_with(p, root) {
        let ghost whole = p@;
        let n: usize = root.unicode_len();
        let rest: &str = p.substring_char(n, p.unicode_len());
        proof {
            assert(rest@ =~= whole.skip(root@.len() as int));
        }
        rest
    } else {
        p
    };
    Line::styled(
        text::cat2(
            if in_hand {
                "▶ "
            } else {
                "  "
            },
            cut,
        ).as_str(),
        if in_hand {
            ink(Color::White).bold()
        } else {
            ink(Color::White)
        },
    )
}

impl TagSearchState {
    /// The conditions and the buttons, in a pane of this size.
    pub fn render_query_builder(&self, width: u16, height: u16) -> (r: Vec<PlacedLine>)
        requires
            self@.wf(),
        ensures
            r.deep_view() == self@.query_lines(width, height),
    {
        let ghost n = rows_shown(self@.conditions.len(), height);
        let mut out: Vec<PlacedLine> = nothing();
        let mut i: usize = 0;
        let mut y: u16 = 0;
        while i < self.conditions.len() && height >= 4 && y <= height - 4
            invariant
                self@.wf(),
                n == rows_shown(self@.conditions.len(), height),
                i <= n,
                y == 2 * i,
                y <= height || i == 0,
                out.deep_view() == self@.rows(i as nat),
            decreases self.conditions.len() - i,
        {
            proof {
                assert(self@.conditions[i as int].wf());
                assert(self@.conditions[i as int] == self.conditions[i as int].deep_view());
            }
            let at: Option<QueryFieldFocus> = if self.focused_condition == i {
                Some(self.field_focus)
            } else {
                None
            };
            let line: Line = render_condition_row(&self.conditions[i], i == 0, at);
            put(&mut out, PlacedLine { x: 0, y, line });
            proof {
                assert(self@.rows(i as nat + 1) =~= self@.rows(i as nat).push(
                    PlacedLineModel {
                        x: 0,
                        y,
                        line: condition_row(
                            self@.conditions[i as int],
                            i == 0,
                            self@.focus_in(i as int),
                        ),
                    },
                ));
            }
            i = i + 1;
            y = y + 2;
        }
        proof {
            assert(i == n);
        }
        put_all(&mut out, self.render_query_buttons(y, width, height));
        out
    }

    fn render_query_buttons(&self, y: u16, width: u16, height: u16) -> (r: Vec<PlacedLine>)
        ensures
            r.deep_view() == self@.buttons(y as int, width, height),
    {
        let mut out: Vec<PlacedLine> = nothing();
        let mut y: u16 = y;
        let ghost top = y as int;
        if height >= 2 && y < height - 2 {
            let style: Style = if self.is_on_add_condition() {
                ink(Color::Cyan).bold()
            } else {
                ink(Color::DarkGray)
            };
            put(
                &mut out,
                PlacedLine { x: 2, y, line: Line::one("[+ Add another condition]", style) },
            );
            y = y + 2;
        }
        let ghost upper = out.deep_view();
        let mut lower: Vec<PlacedLine> = nothing();
        if y < height {
            let style: Style = if self.is_on_search_button() {
                Style::plain().bg(Color::Cyan).fg(Color::Black).bold()
            } else {
                ink(Color::Cyan)
            };
            let x: u16 = if width >= 12 {
                (width - 12) / 2
            } else {
                0
            };
            put(&mut lower, PlacedLine { x, y, line: Line::one("[ Search ]", style) });
        }
        put_all(&mut out, lower);
        out
    }

    /// The modal.
    pub fn render_modal(&self) -> (r: Option<Pane>)
        ensures
            r.deep_view() == self@.modal_view(),
    {
        let mut lines: Vec<Line> = nothing();
        match self.modal {
            None => None,
            Some(TagSearchModal::NoResults) => {
                put(&mut lines, Line::blank());
                put(&mut lines, Line::styled("No results found", ink(Color::White)));
                put(&mut lines, Line::blank());
                put(&mut lines, Line::styled("[ OK ]", ink(Color::Cyan).bold()));
                Some(
                    Pane { title: "Search Results".to_owned(), lines, border: Style::plain() },
                )
            },
            Some(TagSearchModal::GatheringTags) => {
                let n: usize = match &self.pending_bulk_edit {
                    Some(files) => files.len(),
                    None => 0,
                };
                put(&mut lines, Line::blank());
                put(
                    &mut lines,
                    Line::styled(
                        text::cat3(
                            "Gathering tags for ",
                            text::count(n).as_str(),
                            " files...",
                        ).as_str(),
                        ink(Color::Yellow),
                    ),
                );
                put(&mut lines, Line::blank());
                Some(Pane { title: "Bulk Edit".to_owned(), lines, border: Style::plain() })
            },
        }
    }

    /// The results.
    pub fn render_results(&self) -> (r: Pane)
        ensures
            r.deep_view() == self@.results_view(),
    {
        let ghost want = self@.results_view().lines;
        let mut lines: Vec<Line> = nothing();
        let mut i: usize = 0;
        while i < self.results.len()
            invariant
                i <= self.results.len(),
                want == self@.results_view().lines,
                lines.len() == i,
                forall|k: int| 0 <= k < i ==> (#[trigger] lines[k]).deep_view() == want[k],
            decreases self.results.len() - i,
        {
            lines.push(show_result(&self.results[i], i == self.results_selected));
            i = i + 1;
        }
        proof {
            assert(lines.deep_view() =~= want);
        }
        Pane {
            title: text::cat3(
                "Results (",
                text::count(self.results.len()).as_str(),
                " tracks)",
            ),
            lines,
            border: Style::plain(),
        }
    }
}

/// Whatever fits, the buttons stand below the conditions and inside the pane.
pub proof fn law_query_lines_inside(m: SearchModel, width: u16, height: u16)
    ensures
        forall|i: int|
            0 <= i < m.query_lines(width, height).len() ==> (#[trigger] m.query_lines(
                width,
                height,
            )[i]).y < height,
        forall|i: int, j: int|
            0 <= i < j < m.query_lines(width, height).len() ==> (#[trigger] m.query_lines(
                width,
                height,
            )[i]).y < (#[trigger] m.query_lines(width, height)[j]).y,
{
}

/// Each result has a line with its path, without the folder of the corpus; the one
/// in hand is pointed at.
pub proof fn law_results_have_lines(m: SearchModel, i: int, rest: Seq<char>)
    requires
        0 <= i < m.results.len(),
    ensures
        ({
            let l = m.results_view().lines[i];
            let p = m.results[i].audio_file.path;
            let mark = if i == m.results_selected {
                "▶ "@
            } else {
                "  "@
            };
            &&& m.results_view().lines.len() == m.results.len()
            &&& p == "corpus/"@ + rest ==> l.spans[0].text == mark + rest
            &&& !begins_with(p, "corpus/"@) ==> l.spans[0].text == mark + p
            &&& l.style.bold <==> i == m.results_selected
        }),
{
    let p = m.results[i].audio_file.path;
    if p == "corpus/"@ + rest {
        assert(p.take("corpus/"@.len() as int) =~= "corpus/"@);
        assert(p.skip("corpus/"@.len() as int) =~= rest);
    }
}

/// A condition shows what it is about, how it is joined to those before it, and
/// what is looked for; the field in hand alone is lit.
pub proof fn law_condition_is_shown(c: ConditionModel, first: bool, at: Option<QueryFieldFocus>)
    ensures
        ({
            let s = condition_row(c, first, at).spans;
            let range = c.condition_type == ConditionType::SampleRate || c.condition_type
                == ConditionType::Bitrate || c.condition_type == ConditionType::Duration;
            &&& first ==> s[0].text == "    "@
            &&& !first ==> s[0].text == padded(c.operator.words(), 4)
            &&& s[1].text == "["@ + padded(c.condition_type.words(), 4) + "]"@
            &&& s[1].style.bg is Some <==> at == Some(QueryFieldFocus::ConditionType)
            &&& c.condition_type == ConditionType::Tag ==> s[5].text == padded(
                c.comparison.words(),
                8,
            ) && (s[3].style.bg is Some <==> at == Some(QueryFieldFocus::TagName)) && (
            s[5].style.bg is Some <==> at == Some(QueryFieldFocus::Comparison)) && (
            s[7].style.bg is Some <==> at == Some(QueryFieldFocus::Value))
            &&& c.condition_type == ConditionType::Tag && at is None && c.tag_name.value.len() > 0
                && c.value.value.len() > 0 ==> s[3].text == padded(c.tag_name.value, 12)
                && s[7].text == c.value.value
            &&& c.condition_type == ConditionType::FileType ==> s[3].text == "["@
                + c.file_type_category.words() + "]"@
            &&& range && at is None && c.range_min.value.len() > 0 && c.range_max.value.len() > 0
                ==> s[3].text == padded(c.range_min.value, 8) && s[5].text == padded(
                c.range_max.value,
                8,
            )
            &&& range ==> (s[3].style.bg is Some <==> at == Some(QueryFieldFocus::RangeMin)) && (
            s[5].style.bg is Some <==> at == Some(QueryFieldFocus::RangeMax))
            &&& c.condition_type == ConditionType::SampleRate ==> s[6].text == " "@ + "Hz"@
            &&& c.condition_type == ConditionType::Bitrate ==> s[6].text == " "@ + "kbps"@
            &&& c.condition_type == ConditionType::Duration ==> s[6].text == " "@ + "sec"@
        }),
{
}

/// The conditions are shown in turn, two rows apart, each with its own focus.
pub proof fn law_conditions_are_shown_in_turn(m: SearchModel, width: u16, height: u16, i: int)
    requires
        0 <= i < m.conditions.len(),
        2 * i + 4 <= height,
    ensures
        i < m.query_lines(width, height).len(),
        m.query_lines(width, height)[i].y == 2 * i,
        m.query_lines(width, height)[i].line == condition_row(
            m.conditions[i],
            i == 0,
            if m.focused_condition == i {
                Some(m.field_focus)
            } else {
                None
            },
        ),
{
}

} // verus!
