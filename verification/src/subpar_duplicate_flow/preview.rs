//! The screen that shows the worse files before they are stashed.

use vstd::prelude::*;

use crate::input::{KeyCode, KeyEvent};
use crate::screen::{ink, less, line, line_of, list2, list3, list5, nothing, put, span, visible, window, Color, Line, LineModel, Pane, PaneModel, Span, Style, TitledPane, TitledPaneModel};
use crate::subpar_duplicate_flow::types::{SelectedButton, SubparDuplicateModalData, SubparFileEntry, SubparModel};
use crate::text::{self, centered, cut_left, decimal, padded};
use crate::widgets::{down, down_one, down_page, down_ten, last_place, up_one, up_ten};

verus! {

/// Which part has the focus.
#[derive(Debug, Clone, Copy, PartialEq, Eq, Structural, Default)]
pub enum FocusPane {
    #[default]
    List,
    Buttons,
}

/// What the screen asks for.
#[derive(Debug, Clone, Copy, PartialEq, Eq, Structural)]
pub enum SubparDuplicatePreviewAction {
    /// Nothing
    Nothing,
    /// Stash all files and drop them
    ConfirmStashAll,
    /// Leave
    Cancel,
}

/// The screen.
#[derive(Debug)]
pub struct SubparDuplicatePreviewState {
    /// The files
    pub cached_data: SubparDuplicateModalData,
    /// The first file that is shown, which is the one in hand
    pub scroll: usize,
    /// The button in hand
    pub selected_button: SelectedButton,
    /// What has the focus
    pub focus_pane: FocusPane,
}

/// The model of a [`SubparDuplicatePreviewState`].
pub struct SubparPreviewModel {
    pub files: Seq<SubparModel>,
    pub scroll: usize,
    pub selected_button: SelectedButton,
    pub focus_pane: FocusPane,
}

impl View for SubparDuplicatePreviewState {
    type V = SubparPreviewModel;

    open spec fn view(&self) -> SubparPreviewModel {
        SubparPreviewModel {
            files: self.cached_data.deep_view(),
            scroll: self.scroll,
            selected_button: self.selected_button,
            focus_pane: self.focus_pane,
        }
    }
}

impl SubparPreviewModel {
    /// The screen as it opens.
    pub open spec fn opened(files: Seq<SubparModel>) -> Self {
        SubparPreviewModel {
            files,
            scroll: 0,
            selected_button: SelectedButton::Cancel,
            focus_pane: FocusPane::List,
        }
    }

    /// The answer to a key.
    pub open spec fn key_step(self, key: KeyEvent) -> (
        SubparPreviewModel,
        SubparDuplicatePreviewAction,
    ) {
        let code = key.code;
        let stay = SubparDuplicatePreviewAction::Nothing;
        if key.shift && code == KeyCode::Up {
            (SubparPreviewModel { focus_pane: FocusPane::List, ..self }, stay)
        } else if key.shift && code == KeyCode::Down {
            (SubparPreviewModel { focus_pane: FocusPane::Buttons, ..self }, stay)
        } else if code == KeyCode::PageUp {
            (SubparPreviewModel { scroll: up_ten(self.scroll), ..self }, stay)
        } else if code == KeyCode::PageDown {
            (
                SubparPreviewModel { scroll: down_page(self.scroll, self.files.len()), ..self },
                stay,
            )
        } else if code == KeyCode::Esc {
            (self, SubparDuplicatePreviewAction::Cancel)
        } else {
            match self.focus_pane {
                FocusPane::List => if code == KeyCode::Up || code == KeyCode::Char('k') {
                    (SubparPreviewModel { scroll: up_one(self.scroll), ..self }, stay)
                } else if code == KeyCode::Down || code == KeyCode::Char('j') {
                    (
                        SubparPreviewModel { scroll: down(self.scroll, self.files.len()), ..self },
                        stay,
                    )
                } else {
                    (self, stay)
                },
                FocusPane::Buttons => if code == KeyCode::Left || code == KeyCode::Char('h') {
                    (
                        SubparPreviewModel {
                            selected_button: if self.files.len() > 0 {
                                SelectedButton::StashAll
                            } else {
                                self.selected_button
                            },
                            ..self
                        },
                        stay,
                    )
                } else if code == KeyCode::Right || code == KeyCode::Char('l') {
                    (
                        SubparPreviewModel { selected_button: SelectedButton::Cancel, ..self },
                        stay,
                    )
                } else if code == KeyCode::Enter {
                    (
                        self,
                        match self.selected_button {
                            SelectedButton::Cancel => SubparDuplicatePreviewAction::Cancel,
                            SelectedButton::StashAll => if self.files.len() > 0 {
                                SubparDuplicatePreviewAction::ConfirmStashAll
                            } else {
                                stay
                            },
                        },
                    )
                } else {
                    (self, stay)
                },
            }
        }
    }

    /// The title.
    pub open spec fn title(self) -> LineModel {
        line_of(
            list2(
                span(" Subpar Duplicate Resolution "@, ink(Color::Cyan).bold()),
                span(" ("@ + decimal(self.files.len()) + " files)"@, ink(Color::DarkGray)),
            ),
        )
    }

    /// The lines of the files from the one in hand, in a pane of a size.
    pub open spec fn file_lines(self, width: u16) -> Seq<LineModel> {
        Seq::new(
            self.files.len(),
            |i: int|
                file_line(
                    self.files[i],
                    i == self.scroll && self.focus_pane == FocusPane::List,
                    width,
                ),
        )
    }

    /// The list.
    pub open spec fn list_view(self, width: u16, height: u16) -> TitledPaneModel {
        TitledPaneModel {
            title: line(
                " Subpar Files ("@ + decimal(self.files.len()) + ") "@,
                if self.files.len() > 0 {
                    ink(Color::Cyan)
                } else {
                    ink(Color::DarkGray)
                },
            ),
            lines: if self.files.len() == 0 {
                seq![line("No subpar duplicates found"@, ink(Color::DarkGray))]
            } else {
                window(self.file_lines(width), self.scroll as nat, height as nat)
            },
            border: if self.focus_pane == FocusPane::List {
                ink(Color::Cyan)
            } else {
                ink(Color::DarkGray)
            },
        }
    }

    /// The file in hand and the better one.
    pub open spec fn detail_view(self) -> PaneModel {
        PaneModel {
            title: " Selected Pair "@,
            lines: if self.scroll < self.files.len() {
                let f = self.files[self.scroll as int];
                list2(
                    line_of(
                        list2(
                            span("Subpar: "@, ink(Color::Red)),
                            span(f.corpus_path, ink(Color::White)),
                        ),
                    ),
                    line_of(
                        list2(
                            span("Better: "@, ink(Color::Green)),
                            span(f.superior_path, ink(Color::White)),
                        ),
                    ),
                )
            } else {
                seq![line_of(seq![span("No file selected"@, ink(Color::DarkGray))])]
            },
            border: ink(Color::DarkGray),
        }
    }

    /// The buttons and the keys.
    pub open spec fn controls(self) -> LineModel {
        let focused = self.focus_pane == FocusPane::Buttons;
        line_of(
            list5(
                span(
                    " Stash & Drop All "@,
                    if self.files.len() == 0 {
                        ink(Color::DarkGray)
                    } else if focused && self.selected_button == SelectedButton::StashAll {
                        ink(Color::Black).bg(Color::Cyan).bold()
                    } else {
                        ink(Color::Cyan)
                    },
                ),
                span("  "@, Style::plain()),
                span(
                    " Cancel "@,
                    if focused && self.selected_button == SelectedButton::Cancel {
                        ink(Color::Black).bg(Color::White).bold()
                    } else {
                        ink(Color::White)
                    },
                ),
                span("    "@, Style::plain()),
                span("[Shift+↑↓ focus] [←→ select] [Enter confirm]"@, ink(Color::DarkGray)),
            ),
        )
    }
}

/// The line of a file: its path, why it is worse, and the path of the better
/// one, in columns.
pub open spec fn file_line(f: SubparModel, in_hand: bool, width: u16) -> LineModel {
    let left = (width as int * 45) / 100;
    let middle = (width as int * 10) / 100;
    let right = width as int - left - middle;
    line_of(
        list3(
            span(
                padded(cut_left(f.corpus_path, less(left, 1)), left as nat),
                if in_hand {
                    ink(Color::Black).bg(Color::Cyan)
                } else {
                    ink(Color::White)
                },
            ),
            span(
                centered(f.reason, middle as nat),
                if in_hand {
                    ink(Color::Black).bg(Color::Cyan)
                } else {
                    ink(Color::Yellow)
                },
            ),
            span(
                padded(cut_left(f.superior_path, less(right, 1)), right as nat),
                if in_hand {
                    ink(Color::Black).bg(Color::Cyan)
                } else {
                    ink(Color::White)
                },
            ),
        ),
    )
}

fn show_file(f: &SubparFileEntry, in_hand: bool, width: u16) -> (r: Line)
    ensures
        r.deep_view() == file_line(f.deep_view(), in_hand, width),
{
    let total: usize = width as usize;
    let left: usize = (total * 45) / 100;
    let middle: usize = (total * 10) / 100;
    let right: usize = total - left - middle;
    let path: String = text::truncate_left(
        f.corpus_path.as_str(),
        if left > 1 {
            left - 1
        } else {
            0
        },
    );
    let better: String = text::truncate_left(
        f.superior_path.as_str(),
        if right > 1 {
            right - 1
        } else {
            0
        },
    );
    let style: Style = if in_hand {
        ink(Color::Black).bg(Color::Cyan)
    } else {
        ink(Color::White)
    };
    let mut spans: Vec<Span> = nothing();
    put(&mut spans, Span::styled(text::pad(path.as_str(), left).as_str(), style));
    put(
        &mut spans,
        Span::styled(
            text::center(f.reason.as_str(), middle).as_str(),
            if in_hand {
                ink(Color::Black).bg(Color::Cyan)
            } else {
                ink(Color::Yellow)
            },
        ),
    );
    put(&mut spans, Span::styled(text::pad(better.as_str(), right).as_str(), style));
    Line::of(spans)
}

fn labelled(label: &str, color: Color, words: &str) -> (r: Line)
    ensures
        r.deep_view() == line_of(
            list2(span(label@, ink(color)), span(words@, ink(Color::White))),
        ),
{
    let mut spans: Vec<Span> = nothing();
    put(&mut spans, Span::styled(label, ink(color)));
    put(&mut spans, Span::styled(words, ink(Color::White)));
    Line::of(spans)
}

impl SubparDuplicatePreviewState {
    /// The screen over its files.
    pub fn new(cached_data: SubparDuplicateModalData) -> (r: Self)
        ensures
            r@ == SubparPreviewModel::opened(cached_data.deep_view()),
    {
        SubparDuplicatePreviewState {
            cached_data,
            scroll: 0,
            selected_button: SelectedButton::Cancel,
            focus_pane: FocusPane::List,
        }
    }

    /// Answers a key.
    pub fn handle_key(&mut self, key: KeyEvent) -> (r: SubparDuplicatePreviewAction)
        ensures
            (final(self)@, r) == old(self)@.key_step(key),
    {
        let has_files: bool = self.cached_data.has_files();
        let count: usize = self.cached_data.total_count();
        let on_list: bool = self.focus_pane == FocusPane::List;
        match key.code {
            KeyCode::Up | KeyCode::Char('k') => {
                if key.shift && key.code == KeyCode::Up {
                    self.focus_pane = FocusPane::List;
                } else if on_list {
                    self.scroll = up_one(self.scroll);
                }
                SubparDuplicatePreviewAction::Nothing
            },
            KeyCode::Down | KeyCode::Char('j') => {
                if key.shift && key.code == KeyCode::Down {
                    self.focus_pane = FocusPane::Buttons;
                } else if on_list {
                    self.scroll = down_one(self.scroll, count);
                }
                SubparDuplicatePreviewAction::Nothing
            },
            KeyCode::PageUp => {
                self.scroll = up_ten(self.scroll);
                SubparDuplicatePreviewAction::Nothing
            },
            KeyCode::PageDown => {
                self.scroll = down_ten(self.scroll, count);
                SubparDuplicatePreviewAction::Nothing
            },
            KeyCode::Left | KeyCode::Char('h') => {
                if !on_list {
                    self.selected_button.left(has_files);
                }
                SubparDuplicatePreviewAction::Nothing
            },
            KeyCode::Right | KeyCode::Char('l') => {
                if !on_list {
                    self.selected_button.right(has_files);
                }
                SubparDuplicatePreviewAction::Nothing
            },
            KeyCode::Enter => {
                if on_list {
                    return SubparDuplicatePreviewAction::Nothing;
                }
                match self.selected_button {
                    SelectedButton::StashAll => if has_files {
                        SubparDuplicatePreviewAction::ConfirmStashAll
                    } else {
                        SubparDuplicatePreviewAction::Nothing
                    },
                    SelectedButton::Cancel => SubparDuplicatePreviewAction::Cancel,
                }
            },
            KeyCode::Esc => SubparDuplicatePreviewAction::Cancel,
            _ => SubparDuplicatePreviewAction::Nothing,
        }
    }

    /// The title.
    pub fn render_title(&self) -> (r: Line)
        ensures
            r.deep_view() == self@.title(),
    {
        let mut spans: Vec<Span> = nothing();
        put(&mut spans, Span::styled(" Subpar Duplicate Resolution ", ink(Color::Cyan).bold()));
        put(
            &mut spans,
            Span::styled(
                text::cat3(
                    " (",
                    text::count(self.cached_data.total_count()).as_str(),
                    " files)",
                ).as_str(),
                ink(Color::DarkGray),
            ),
        );
        Line::of(spans)
    }

    /// The list, in a pane of this size.
    pub fn render_content(&self, width: u16, height: u16) -> (r: TitledPane)
        ensures
            r.deep_view() == self@.list_view(width, height),
    {
        let count: usize = self.cached_data.total_count();
        let on_list: bool = self.focus_pane == FocusPane::List;
        let mut lines: Vec<Line> = nothing();
        if count == 0 {
            put(&mut lines, Line::styled("No subpar duplicates found", ink(Color::DarkGray)));
        } else {
            let ghost want = self@.file_lines(width);
            let mut all: Vec<Line> = nothing();
            let mut i: usize = 0;
            while i < self.cached_data.files.len()
                invariant
                    i <= self.cached_data.files.len(),
                    on_list == (self@.focus_pane == FocusPane::List),
                    want == self@.file_lines(width),
                    all.len() == i,
                    forall|k: int| 0 <= k < i ==> (#[trigger] all[k]).deep_view() == want[k],
                decreases self.cached_data.files.len() - i,
            {
                all.push(
                    show_file(&self.cached_data.files[i], i == self.scroll && on_list, width),
                );
                i = i + 1;
            }
            proof {
                assert(all.deep_view() =~= want);
            }
            lines = visible(all, self.scroll, height as usize);
        }
        TitledPane {
            title: Line::styled(
                text::cat3(" Subpar Files (", text::count(count).as_str(), ") ").as_str(),
                if count > 0 {
                    ink(Color::Cyan)
                } else {
                    ink(Color::DarkGray)
                },
            ),
            lines,
            border: if on_list {
                ink(Color::Cyan)
            } else {
                ink(Color::DarkGray)
            },
        }
    }

    /// The file in hand and the better one.
    pub fn render_detail_pane(&self) -> (r: Pane)
        ensures
            r.deep_view() == self@.detail_view(),
    {
        let mut lines: Vec<Line> = nothing();
        if self.scroll < self.cached_data.files.len() {
            let f: &SubparFileEntry = &self.cached_data.files[self.scroll];
            put(&mut lines, labelled("Subpar: ", Color::Red, f.corpus_path.as_str()));
            put(&mut lines, labelled("Better: ", Color::Green, f.superior_path.as_str()));
        } else {
            put(&mut lines, Line::one("No file selected", ink(Color::DarkGray)));
        }
        Pane { title: " Selected Pair ".to_owned(), lines, border: ink(Color::DarkGray) }
    }

    /// The buttons and the keys.
    pub fn render_controls(&self) -> (r: Line)
        ensures
            r.deep_view() == self@.controls(),
    {
        let has_files: bool = self.cached_data.has_files();
        let focused: bool = self.focus_pane == FocusPane::Buttons;
        let mut spans: Vec<Span> = nothing();
        put(
            &mut spans,
            Span::styled(
                " Stash & Drop All ",
                if !has_files {
                    ink(Color::DarkGray)
                } else if focused && self.selected_button == SelectedButton::StashAll {
                    ink(Color::Black).bg(Color::Cyan).bold()
                } else {
                    ink(Color::Cyan)
                },
            ),
        );
        put(&mut spans, Span::raw("  "));
        put(
            &mut spans,
            Span::styled(
                " Cancel ",
                if focused && self.selected_button == SelectedButton::Cancel {
                    ink(Color::Black).bg(Color::White).bold()
                } else {
                    ink(Color::White)
                },
            ),
        );
        put(&mut spans, Span::raw("    "));
        put(
            &mut spans,
            Span::styled("[Shift+↑↓ focus] [←→ select] [Enter confirm]", ink(Color::DarkGray)),
        );
        Line::of(spans)
    }
}

/// Files are stashed only by Enter on the button for it, and only where there
/// are files.
pub proof fn law_stash_only_by_its_button(m: SubparPreviewModel, key: KeyEvent)
    requires
        m.key_step(key).1 == SubparDuplicatePreviewAction::ConfirmStashAll,
    ensures
        key.code == KeyCode::Enter,
        m.focus_pane == FocusPane::Buttons,
        m.selected_button == SelectedButton::StashAll,
        m.files.len() > 0,
        m.key_step(key).0 == m,
{
}

/// The file in hand stays one of the files, whatever key comes, and the files
/// stay as they are.
pub proof fn law_scroll_in_bounds(m: SubparPreviewModel, key: KeyEvent)
    requires
        m.scroll <= last_place(m.files.len()),
        m.files.len() <= usize::MAX,
    ensures
        m.key_step(key).0.scroll <= last_place(m.files.len()),
        m.key_step(key).0.files == m.files,
{
}

/// Each file has a line with its path, the reason and the better copy, lit where it
/// is in hand.
pub proof fn law_pairs_have_lines(m: SubparPreviewModel, i: int, width: u16)
    requires
        0 <= i < m.files.len(),
    ensures
        ({
            let l = m.file_lines(width)[i].spans;
            let left = (width as int * 45) / 100;
            let middle = (width as int * 10) / 100;
            let right = width as int - left - middle;
            let lit = i == m.scroll && m.focus_pane == FocusPane::List;
            &&& m.file_lines(width).len() == m.files.len()
            &&& l[0].text == padded(
                cut_left(m.files[i].corpus_path, less(left, 1)),
                left as nat,
            )
            &&& l[1].text == centered(m.files[i].reason, middle as nat)
            &&& l[2].text == padded(
                cut_left(m.files[i].superior_path, less(right, 1)),
                right as nat,
            )
            &&& l[0].style.bg is Some <==> lit
            &&& l[2].style.bg is Some <==> lit
        }),
{
}

/// The pair in hand is shown in full.
pub proof fn law_pair_in_hand_is_shown(m: SubparPreviewModel)
    requires
        m.scroll < m.files.len(),
    ensures
        m.detail_view().lines[0].spans[1].text == m.files[m.scroll as int].corpus_path,
        m.detail_view().lines[1].spans[1].text == m.files[m.scroll as int].superior_path,
{
}

/// The chosen button alone is lit, and only where the buttons are and there is a
/// file.
pub proof fn law_chosen_button_is_lit(m: SubparPreviewModel)
    ensures
        m.controls().spans[0].style.bg is Some <==> m.focus_pane == FocusPane::Buttons
            && m.selected_button == SelectedButton::StashAll && m.files.len() > 0,
        m.controls().spans[2].style.bg is Some <==> m.focus_pane == FocusPane::Buttons
            && m.selected_button == SelectedButton::Cancel,
{
}

} // verus!
