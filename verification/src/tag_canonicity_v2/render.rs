//! What the modal shows.

use vstd::prelude::*;
use vstd::string::StringSliceAdditionalSpecFns;
use vstd::utf8::encode_utf8;

use crate::ordering::{in_order, sorted, Ranked};
use crate::screen::{ink, less, line_of, list2, nothing, put, span, visible, window, Color, Line, LineModel, Pane, PaneModel, Span, Style};
use crate::tag_canonicity::data::{TagVariantEntry, VariantModel};
use crate::tag_canonicity::render::{input_label, input_line, render_input_line};
use crate::tag_canonicity_v2::types::{CanonicityV2Model, FileTagInfo, FileTagModel, FocusPaneV2, TagCanonicalityStateV2};
use crate::text::{self, cut_right, decimal, same_but_case};
use crate::widgets::scrolled_to;

verus! {

/// The frame of a pane.
#[verifier::allow_in_spec]
pub fn pane_style(focused: bool) -> Style
    returns
        (if focused {
            ink(Color::Yellow)
        } else {
            ink(Color::DarkGray)
        }),
{
    if focused {
        ink(Color::Yellow)
    } else {
        ink(Color::DarkGray)
    }
}

/// The line of a variant, in a pane of a width.
pub open spec fn variant_line(
    v: VariantModel,
    selected: bool,
    in_hand: bool,
    width: u16,
) -> LineModel {
    line_of(
        seq![
            span(
                (if selected {
                    "[x]"@
                } else {
                    "[ ]"@
                }) + " "@ + cut_right(v.value, less(width as int, 10)) + " ("@ + (decimal(
                    v.count as nat,
                ) + ")"@),
                if in_hand {
                    ink(Color::Yellow).bold()
                } else if selected {
                    ink(Color::Green)
                } else {
                    ink(Color::White)
                },
            ),
        ],
    )
}

fn show_variant(v: &TagVariantEntry, selected: bool, in_hand: bool, width: u16) -> (r: Line)
    ensures
        r.deep_view() == variant_line(v.deep_view(), selected, in_hand, width),
{
    let room: usize = if width > 10 {
        (width - 10) as usize
    } else {
        0
    };
    let value: String = text::truncate_right(v.value.as_str(), room);
    let tail: String = text::cat2(text::count(v.count).as_str(), ")");
    Line::one(
        text::cat5(
            if selected {
                "[x]"
            } else {
                "[ ]"
            },
            " ",
            value.as_str(),
            " (",
            tail.as_str(),
        ).as_str(),
        if in_hand {
            ink(Color::Yellow).bold()
        } else if selected {
            ink(Color::Green)
        } else {
            ink(Color::White)
        },
    )
}

/// The line of a file, in a pane of a width.
pub open spec fn file_line(f: FileTagModel, in_hand: bool, focused: bool, width: u16) -> LineModel {
    line_of(
        list2(
            span(
                if in_hand {
                    "> "@
                } else {
                    "  "@
                },
                Style::plain(),
            ),
            span(
                cut_right(f.filename, less(width as int, 4)),
                if in_hand && focused {
                    ink(Color::Yellow).bold()
                } else if in_hand {
                    ink(Color::Cyan)
                } else {
                    ink(Color::White)
                },
            ),
        ),
    )
}

fn show_file(f: &FileTagInfo, in_hand: bool, focused: bool, width: u16) -> (r: Line)
    ensures
        r.deep_view() == file_line(f.deep_view(), in_hand, focused, width),
{
    let room: usize = if width > 4 {
        (width - 4) as usize
    } else {
        0
    };
    let mut spans: Vec<Span> = nothing();
    put(
        &mut spans,
        Span::raw(
            if in_hand {
                "> "
            } else {
                "  "
            },
        ),
    );
    put(
        &mut spans,
        Span::styled(
            text::truncate_right(f.filename.as_str(), room).as_str(),
            if in_hand && focused {
                ink(Color::Yellow).bold()
            } else if in_hand {
                ink(Color::Cyan)
            } else {
                ink(Color::White)
            },
        ),
    );
    Line::of(spans)
}

/// Whether one tag comes before another.
pub open spec fn by_name() -> spec_fn((Seq<char>, Seq<char>), (Seq<char>, Seq<char>)) -> bool {
    |a: (Seq<char>, Seq<char>), b: (Seq<char>, Seq<char>)| <(String, String)>::precedes(a, b)
}

/// The line of a tag. The one to be squashed stands out. The value has the room
/// that is left by the bytes of the name.
pub open spec fn tag_line(t: (Seq<char>, Seq<char>), tag_name: Seq<char>, width: u16) -> LineModel {
    let target = same_but_case(t.0, tag_name);
    line_of(
        list2(
            span(
                t.0 + ": "@,
                if target {
                    ink(Color::Cyan).bold()
                } else {
                    ink(Color::DarkGray)
                },
            ),
            span(
                cut_right(t.1, less(less(width as int, 1) as int, (encode_utf8(t.0).len() as usize) as int + 2)),
                if target {
                    ink(Color::White)
                } else {
                    ink(Color::DarkGray)
                },
            ),
        ),
    )
}

fn show_tag(t: &(String, String), tag_name: &str, width: u16) -> (r: Line)
    ensures
        r.deep_view() == tag_line(t.deep_view(), tag_name@, width),
{
    let target: bool = text::equal_but_case(t.0.as_str(), tag_name);
    let whole: usize = if width > 1 {
        (width - 1) as usize
    } else {
        0
    };
    let name: &str = t.0.as_str();
    let taken: usize = name.len();
    let room: usize = if taken < whole && 2 < whole - taken {
        whole - taken - 2
    } else {
        0
    };
    proof {
        assert(name.spec_bytes() == encode_utf8(name@));
        assert(room == less(less(width as int, 1) as int, (encode_utf8(t.0@).len() as usize) as int + 2));
    }
    let mut spans: Vec<Span> = nothing();
    put(
        &mut spans,
        Span::styled(
            text::cat2(name, ": ").as_str(),
            if target {
                ink(Color::Cyan).bold()
            } else {
                ink(Color::DarkGray)
            },
        ),
    );
    put(
        &mut spans,
        Span::styled(
            text::truncate_right(t.1.as_str(), room).as_str(),
            if target {
                ink(Color::White)
            } else {
                ink(Color::DarkGray)
            },
        ),
    );
    Line::of(spans)
}

impl CanonicityV2Model {
    /// The title, with which group of how many it is.
    pub open spec fn title(self) -> Seq<char> {
        let group = "("@ + decimal(self.group_index as nat + 1) + "/"@ + decimal(
            self.total_groups as nat,
        ) + ")"@;
        match self.data.context_label {
            Some(context) => " Set \""@ + self.data.tag_name + "\" variants "@ + group + (" - "@
                + context + " "@),
            None => " Squash \""@ + self.data.tag_name + "\" variants "@ + group + " "@,
        }
    }

    /// The place in the list of variants.
    pub open spec fn variant_place(self) -> usize {
        if self.variant_cursor > 0 {
            self.variant_cursor as usize
        } else {
            0
        }
    }

    /// The lines of all variants.
    pub open spec fn variant_lines(self, width: u16) -> Seq<LineModel> {
        Seq::new(
            self.data.variants.len(),
            |i: int|
                variant_line(
                    self.data.variants[i],
                    self.selected_variants.contains(i as usize),
                    i == self.variant_cursor && self.focus_pane == FocusPaneV2::Variants,
                    width,
                ),
        )
    }

    /// The variants, as many as fit, with the one in hand among them.
    pub open spec fn variants_view(self, width: u16, height: u16) -> PaneModel {
        PaneModel {
            title: " VALUES ("@ + decimal(self.selected_variants.len()) + "/"@ + decimal(
                self.data.variants.len(),
            ) + ") "@,
            lines: window(
                self.variant_lines(width),
                scrolled_to(self.variant_place(), self.variant_scroll, height as usize) as nat,
                height as nat,
            ),
            border: pane_style(self.focus_pane == FocusPaneV2::Variants),
        }
    }

    /// The lines of all files.
    pub open spec fn file_lines(self, width: u16) -> Seq<LineModel> {
        Seq::new(
            self.data.files.len(),
            |i: int|
                file_line(
                    self.data.files[i],
                    i == self.file_cursor,
                    self.focus_pane == FocusPaneV2::Files,
                    width,
                ),
        )
    }

    /// The files, as many as fit, with the one in hand among them.
    pub open spec fn files_view(self, width: u16, height: u16) -> PaneModel {
        PaneModel {
            title: " TRACKS ("@ + decimal(self.data.files.len()) + ") "@,
            lines: window(
                self.file_lines(width),
                scrolled_to(self.file_cursor, self.file_scroll, height as usize) as nat,
                height as nat,
            ),
            border: pane_style(self.focus_pane == FocusPaneV2::Files),
        }
    }

    /// The lines of all tags of the file in hand, in the order of their names.
    pub open spec fn tag_lines(self, width: u16) -> Seq<LineModel> {
        if self.file_cursor < self.data.files.len() {
            in_order(
                self.data.files[self.file_cursor as int].tag_values,
                by_name(),
            ).map_values(|t: (Seq<char>, Seq<char>)| tag_line(t, self.data.tag_name, width))
        } else {
            Seq::empty()
        }
    }

    /// The tags of the file in hand, as many as fit.
    pub open spec fn tags_view(self, width: u16, height: u16) -> PaneModel {
        PaneModel {
            title: " TAG VALUES "@,
            lines: window(self.tag_lines(width), 0, height as nat),
            border: ink(Color::DarkGray),
        }
    }

    /// The text field.
    pub open spec fn input_view(self) -> PaneModel {
        PaneModel {
            title: input_label(self.pre_filled),
            lines: seq![input_line(self.canonical_input, self.typing())],
            border: if self.typing() {
                ink(Color::Cyan)
            } else {
                ink(Color::Magenta)
            },
        }
    }
}

/// The keys.
pub fn render_controls() -> (r: &'static str)
    ensures
        r@
            == "[^/v] navigate  [</> pane]  [Space] toggle  [F] fill  [Enter] confirm  [Tab] next  [^R] review  [Esc] cancel"@,
{
    "[^/v] navigate  [</> pane]  [Space] toggle  [F] fill  [Enter] confirm  [Tab] next  [^R] review  [Esc] cancel"
}

impl TagCanonicalityStateV2 {
    /// The title.
    pub fn render_title(&self) -> (r: String)
        ensures
            r@ == self@.title(),
    {
        let group: String = text::cat5(
            "(",
            text::place(self.group_index).as_str(),
            "/",
            text::count(self.total_groups).as_str(),
            ")",
        );
        match &self.data.context_label {
            Some(context) => {
                let tail: String = text::cat3(" - ", context.as_str(), " ");
                text::cat5(
                    " Set \"",
                    self.data.tag_name.as_str(),
                    "\" variants ",
                    group.as_str(),
                    tail.as_str(),
                )
            },
            None => text::cat5(
                " Squash \"",
                self.data.tag_name.as_str(),
                "\" variants ",
                group.as_str(),
                " ",
            ),
        }
    }

    /// The variants, in a pane of this size.
    pub fn render_variants_pane(&self, width: u16, height: u16) -> (r: Pane)
        requires
            self@.variant_scroll + height <= usize::MAX,
        ensures
            r.deep_view() == self@.variants_view(width, height),
    {
        let focused: bool = self.focus_pane == FocusPaneV2::Variants;
        let ghost want = self@.variant_lines(width);
        let mut lines: Vec<Line> = nothing();
        let mut i: usize = 0;
        while i < self.data.variants.len()
            invariant
                i <= self.data.variants.len(),
                focused == (self@.focus_pane == FocusPaneV2::Variants),
                want == self@.variant_lines(width),
                lines.len() == i,
                forall|k: int| 0 <= k < i ==> (#[trigger] lines[k]).deep_view() == want[k],
            decreases self.data.variants.len() - i,
        {
            let in_hand: bool = self.variant_cursor >= 0 && i == self.variant_cursor as usize;
            lines.push(
                show_variant(
                    &self.data.variants[i],
                    self.selected_variants.contains(&i),
                    in_hand && focused,
                    width,
                ),
            );
            i = i + 1;
        }
        proof {
            assert(lines.deep_view() =~= want);
        }
        let at: usize = if self.variant_cursor > 0 {
            self.variant_cursor as usize
        } else {
            0
        };
        let scroll: usize = scrolled_to(at, self.variant_scroll, height as usize);
        Pane {
            title: text::cat5(
                " VALUES (",
                text::count(self.selected_variants.len()).as_str(),
                "/",
                text::count(self.data.variants.len()).as_str(),
                ") ",
            ),
            lines: visible(lines, scroll, height as usize),
            border: pane_style(focused),
        }
    }

    /// The files, in a pane of this size.
    pub fn render_files_pane(&self, width: u16, height: u16) -> (r: Pane)
        requires
            self@.file_scroll + height <= usize::MAX,
        ensures
            r.deep_view() == self@.files_view(width, height),
    {
        let focused: bool = self.focus_pane == FocusPaneV2::Files;
        let ghost want = self@.file_lines(width);
        let mut lines: Vec<Line> = nothing();
        let mut i: usize = 0;
        while i < self.data.files.len()
            invariant
                i <= self.data.files.len(),
                focused == (self@.focus_pane == FocusPaneV2::Files),
                want == self@.file_lines(width),
                lines.len() == i,
                forall|k: int| 0 <= k < i ==> (#[trigger] lines[k]).deep_view() == want[k],
            decreases self.data.files.len() - i,
        {
            lines.push(show_file(&self.data.files[i], i == self.file_cursor, focused, width));
            i = i + 1;
        }
        proof {
            assert(lines.deep_view() =~= want);
        }
        let scroll: usize = scrolled_to(self.file_cursor, self.file_scroll, height as usize);
        Pane {
            title: text::cat3(
                " TRACKS (",
                text::count(self.data.files.len()).as_str(),
                ") ",
            ),
            lines: visible(lines, scroll, height as usize),
            border: pane_style(focused),
        }
    }

    /// The tags of the file in hand, in a pane of this size.
    pub fn render_tags_pane(&self, width: u16, height: u16) -> (r: Pane)
        ensures
            r.deep_view() == self@.tags_view(width, height),
    {
        let ghost want = self@.tag_lines(width);
        let mut lines: Vec<Line> = nothing();
        if self.file_cursor < self.data.files.len() {
            let tags: Vec<(String, String)> = sorted(
                crate::corpus::copy_tags(&self.data.files[self.file_cursor].tag_values),
            );
            let ghost s = tags.deep_view();
            proof {
                assert(s == in_order(
                    self@.data.files[self.file_cursor as int].tag_values,
                    by_name(),
                ));
            }
            let mut i: usize = 0;
            while i < tags.len()
                invariant
                    i <= tags.len(),
                    s == tags.deep_view(),
                    lines.len() == i,
                    forall|k: int|
                        0 <= k < i ==> (#[trigger] lines[k]).deep_view() == tag_line(
                            s[k],
                            self@.data.tag_name,
                            width,
                        ),
                decreases tags.len() - i,
            {
                lines.push(show_tag(&tags[i], self.data.tag_name.as_str(), width));
                i = i + 1;
            }
            proof {
                assert(lines.deep_view() =~= want);
            }
        }
        Pane {
            title: " TAG VALUES ".to_owned(),
            lines: visible(lines, 0, height as usize),
            border: ink(Color::DarkGray),
        }
    }

    /// The text field.
    pub fn render_input(&self) -> (r: Pane)
        requires
            self@.wf(),
        ensures
            r.deep_view() == self@.input_view(),
    {
        let focused: bool = self.focus_pane == FocusPaneV2::Variants && self.variant_cursor == -1;
        let mut lines: Vec<Line> = nothing();
        put(&mut lines, render_input_line(&self.canonical_input, focused));
        Pane {
            title: if self.pre_filled {
                " Squash to: ".to_owned()
            } else {
                " Album artist: ".to_owned()
            },
            lines,
            border: if focused {
                ink(Color::Cyan)
            } else {
                ink(Color::Magenta)
            },
        }
    }
}

/// Each variant has a line with its value, cut where it does not fit, and its
/// count; it is crossed where it is selected, and bold where it is in hand.
pub proof fn law_variants_have_lines(m: CanonicityV2Model, i: int, width: u16)
    requires
        0 <= i < m.data.variants.len() <= usize::MAX,
        width >= 10,
    ensures
        ({
            let l = m.variant_lines(width)[i].spans[0];
            let v = m.data.variants[i];
            let text = " "@ + cut_right(v.value, (width - 10) as nat) + " ("@ + (decimal(
                v.count as nat,
            ) + ")"@);
            &&& m.variant_lines(width).len() == m.data.variants.len()
            &&& m.selected_variants.contains(i as usize) ==> l.text =~= "[x]"@ + text
            &&& !m.selected_variants.contains(i as usize) ==> l.text =~= "[ ]"@ + text
            &&& l.style.bold <==> i == m.variant_cursor && m.focus_pane == FocusPaneV2::Variants
        }),
{
}

/// Each file has a line with its name, pointed at where it is in hand.
pub proof fn law_files_have_lines(m: CanonicityV2Model, i: int, width: u16)
    requires
        0 <= i < m.data.files.len(),
        width >= 4,
    ensures
        m.file_lines(width).len() == m.data.files.len(),
        m.file_lines(width)[i].spans[0].text == (if i == m.file_cursor {
            "> "@
        } else {
            "  "@
        }),
        m.file_lines(width)[i].spans[1].text == cut_right(
            m.data.files[i].filename,
            (width - 4) as nat,
        ),
        m.file_lines(width)[i].spans[1].style.bold <==> i == m.file_cursor && m.focus_pane
            == FocusPaneV2::Files,
{
}

/// The tags that are shown are those of the file in hand, all of them.
pub proof fn law_tags_of_the_file_in_hand(m: CanonicityV2Model, width: u16)
    requires
        m.file_cursor < m.data.files.len(),
    ensures
        m.tag_lines(width).len() == m.data.files[m.file_cursor as int].tag_values.len(),
        forall|k: int|
            0 <= k < m.data.files[m.file_cursor as int].tag_values.len() ==> exists|i: int|
                0 <= i < m.tag_lines(width).len() && (#[trigger] m.tag_lines(width)[i])
                    == tag_line(
                    #[trigger] m.data.files[m.file_cursor as int].tag_values[k],
                    m.data.tag_name,
                    width,
                ),
{
    let tags = m.data.files[m.file_cursor as int].tag_values;
    let s = in_order(tags, by_name());
    crate::ordering::law_in_order(tags, by_name());
    crate::ordering::law_in_order_contains(tags, by_name());
    assert forall|k: int| 0 <= k < tags.len() implies exists|i: int|
        0 <= i < m.tag_lines(width).len() && (#[trigger] m.tag_lines(width)[i]) == tag_line(
            #[trigger] tags[k],
            m.data.tag_name,
            width,
        ) by {
        assert(tags.contains(tags[k]));
        assert(s.contains(tags[k]));
        let i = choose|i: int| 0 <= i < s.len() && s[i] == tags[k];
        assert(m.tag_lines(width)[i] == tag_line(tags[k], m.data.tag_name, width));
    }
}

/// The variant in hand and the file in hand are among the lines that are shown.
pub proof fn law_places_in_hand_are_shown(m: CanonicityV2Model, width: u16, height: u16)
    requires
        m.wf(),
        height > 0,
        m.variant_scroll + height <= usize::MAX,
        m.file_scroll + height <= usize::MAX,
        0 <= m.variant_cursor < m.data.variants.len(),
        m.file_cursor < m.data.files.len(),
    ensures
        exists|i: int|
            0 <= i < m.variants_view(width, height).lines.len() && #[trigger] m.variants_view(
                width,
                height,
            ).lines[i] == m.variant_lines(width)[m.variant_cursor as int],
        exists|i: int|
            0 <= i < m.files_view(width, height).lines.len() && #[trigger] m.files_view(
                width,
                height,
            ).lines[i] == m.file_lines(width)[m.file_cursor as int],
{
    crate::widgets::law_scrolled_to_shows(m.variant_place(), m.variant_scroll, height as usize);
    crate::widgets::law_scrolled_to_shows(m.file_cursor, m.file_scroll, height as usize);
    let v = scrolled_to(m.variant_place(), m.variant_scroll, height as usize);
    let f = scrolled_to(m.file_cursor, m.file_scroll, height as usize);
    crate::screen::law_window_shows_from_there(m.variant_lines(width), v as nat, height as nat);
    crate::screen::law_window_shows_from_there(m.file_lines(width), f as nat, height as nat);
    let i = m.variant_cursor - v;
    assert(m.variants_view(width, height).lines[i] == m.variant_lines(width)[v + i]);
    let j = m.file_cursor - f;
    assert(m.files_view(width, height).lines[j] == m.file_lines(width)[f + j]);
}

} // verus!
