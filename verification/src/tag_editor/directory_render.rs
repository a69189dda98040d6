//! What the directory editor shows.

use vstd::prelude::*;

use crate::lists::{chosen, distinct, lemma_chosen_start, lemma_chosen_step, picked, put_new};
use crate::ordering::{in_order, sorted, Ranked};
use crate::paths;
use crate::screen::{blank, ink, inner_height, line, line_of, list2, list3, list4, list5, list6, nothing, put, put_all, scroll_indicator, scroll_note, span, visible, window, Color, Line, LineModel, Pane, PaneModel, Span, Style};
use crate::tag_editor::directory_state::{DirectoryModel, DirectoryTagChange, DirectoryTagChangeModel, DirectoryTagEditorFocus, DirectoryTagEditorState, FileEntry, FileEntryModel, GatheringModel, VariousConfirmState};
use crate::tag_editor::types::{AggregatedTagField, AggregatedValue, AggregatedValueModel, FieldEditState};
use crate::text::{self, cut_left, decimal, lowercase, padded, separated};

verus! {

// ---------------------------------------------------------------------------
// Gathering
// ---------------------------------------------------------------------------

/// The popup while files are gathered.
pub open spec fn gathering_view(g: GatheringModel) -> PaneModel {
    PaneModel {
        title: "Loading Directory"@,
        lines: list6(
            blank(),
            line(
                "Gathering metadata: "@ + decimal(g.processed_files as nat) + "/"@ + (
                if g.total_files > 0 {
                    decimal(g.total_files as nat)
                } else {
                    "..."@
                }),
                Style::plain().bold(),
            ),
            blank(),
            line(
                match g.current_file {
                    Some(f) => cut_left(f, 40),
                    None => Seq::empty(),
                },
                ink(Color::DarkGray),
            ),
            blank(),
            line("Press Esc to cancel"@, ink(Color::Yellow)),
        ),
        border: ink(Color::Cyan),
    }
}

// ---------------------------------------------------------------------------
// Directory
// ---------------------------------------------------------------------------

/// The suffix of a path.
pub open spec fn path_suffix(path: Seq<char>) -> Option<Seq<char>> {
    match paths::name_in(path) {
        Some(name) => paths::suffix_in(name),
        None => None,
    }
}

/// The condition of having a suffix.
pub open spec fn has_suffix() -> spec_fn(FileEntryModel) -> bool {
    |f: FileEntryModel| path_suffix(f.path) is Some
}

/// The suffix of a file in lower case.
pub open spec fn low_suffix() -> spec_fn(FileEntryModel) -> Seq<char> {
    |f: FileEntryModel| lowercase(path_suffix(f.path)->0)
}

/// The suffixes of the files in lower case.
pub open spec fn suffixes(files: Seq<FileEntryModel>) -> Seq<Seq<char>> {
    picked(files, has_suffix(), low_suffix())
}

/// The condition of being a string.
pub open spec fn equal_to(s: Seq<char>) -> spec_fn(Seq<char>) -> bool {
    |t: Seq<char>| t == s
}

/// A format with the number of files that have it.
#[derive(Debug)]
pub struct FormatCount {
    pub format: String,
    pub count: usize,
}

/// The model of a [`FormatCount`].
pub struct FormatCountModel {
    pub format: Seq<char>,
    pub count: nat,
}

impl DeepView for FormatCount {
    type V = FormatCountModel;

    open spec fn deep_view(&self) -> FormatCountModel {
        FormatCountModel { format: self.format@, count: self.count as nat }
    }
}

/// The most frequent format stands first.
impl Ranked for FormatCount {
    open spec fn precedes(a: FormatCountModel, b: FormatCountModel) -> bool {
        a.count > b.count
    }

    fn before(&self, other: &Self) -> (r: bool) {
        self.count > other.count
    }
}

/// A format with the number of times that it occurs.
pub open spec fn counted(all: Seq<Seq<char>>) -> spec_fn(Seq<char>) -> FormatCountModel {
    |s: Seq<char>| FormatCountModel { format: s, count: chosen(all, equal_to(s)).len() }
}

/// The formats of the files, the most frequent first.
pub open spec fn formats(files: Seq<FileEntryModel>) -> Seq<FormatCountModel> {
    let all = suffixes(files);
    in_order(
        distinct(all).map_values(counted(all)),
        |a: FormatCountModel, b: FormatCountModel| FormatCount::precedes(a, b),
    )
}

/// A format with its number.
pub open spec fn format_words() -> spec_fn(FormatCountModel) -> Seq<char> {
    |f: FormatCountModel| f.format + " ("@ + decimal(f.count) + ")"@
}

/// The pane on the directory.
pub open spec fn directory_view(m: DirectoryModel) -> PaneModel {
    let words = separated(formats(m.files).map_values(format_words()), ", "@);
    PaneModel {
        title: "Directory - "@ + (match paths::name_in(m.current_directory) {
            Some(name) => name,
            None => m.current_directory,
        }),
        lines: list2(
            line("Path: "@ + m.current_directory, Style::plain()),
            line(
                "Files: "@ + decimal(m.files.len()) + " | Formats: "@ + (if words.len() == 0 {
                    "none"@
                } else {
                    words
                }),
                Style::plain(),
            ),
        ),
        border: Style::plain(),
    }
}

/// The name of a directory behind an indent, or nothing.
pub open spec fn beside(m: DirectoryModel, i: int) -> Seq<char> {
    if 0 <= i < m.sibling_directories.len() {
        match paths::name_in(m.sibling_directories[i]) {
            Some(name) => "   "@ + name,
            None => Seq::empty(),
        }
    } else {
        Seq::empty()
    }
}

/// The pane on the directories beside this one.
pub open spec fn siblings_view(m: DirectoryModel) -> PaneModel {
    PaneModel {
        title: "Siblings ["@ + decimal((m.current_sibling_idx + 1) as nat) + "/"@ + decimal(
            m.sibling_directories.len(),
        ) + "]"@,
        lines: list3(
            line(beside(m, m.current_sibling_idx - 1), ink(Color::DarkGray)),
            line(
                match paths::name_in(m.current_directory) {
                    Some(name) => "-> "@ + name,
                    None => "-> (unknown)"@,
                },
                ink(Color::Cyan).bold(),
            ),
            line(beside(m, m.current_sibling_idx + 1), ink(Color::DarkGray)),
        ),
        border: Style::plain(),
    }
}

/// The line of a file.
pub open spec fn file_row(m: DirectoryModel, i: int) -> LineModel {
    line(
        m.files[i].filename,
        if i == m.selected_file_idx {
            Style::plain().bg(Color::DarkGray)
        } else {
            Style::plain()
        },
    )
}

/// The lines of the files.
pub open spec fn file_rows(m: DirectoryModel) -> Seq<LineModel> {
    Seq::new(m.files.len(), |i: int| file_row(m, i))
}

/// The list of files.
pub open spec fn files_view(m: DirectoryModel, height: u16) -> PaneModel {
    let rows = inner_height(height) as nat;
    PaneModel {
        title: "Files"@ + scroll_note(m.files.len(), m.file_scroll_offset as nat, rows),
        lines: window(file_rows(m), m.file_scroll_offset as nat, rows),
        border: Style::plain(),
    }
}

// ---------------------------------------------------------------------------
// Fields
// ---------------------------------------------------------------------------

/// Whether the field at a place differs from what stood there.
pub open spec fn row_modified(m: DirectoryModel, i: int) -> bool {
    i >= m.original_aggregated_fields.len() || m.original_aggregated_fields[i].value
        != m.aggregated_fields[i].value
}

/// The value of a field as its line shows it.
pub open spec fn row_value(m: DirectoryModel, i: int) -> Seq<char> {
    let typing = i == m.current_field_idx && m.field_edit_state != FieldEditState::NonEditable;
    match m.aggregated_fields[i].value {
        AggregatedValueModel::Consistent(s) => if typing {
            m.value_buffer + "_"@
        } else {
            s
        },
        AggregatedValueModel::Various => "(various values)"@,
        AggregatedValueModel::VariousConfirming => if m.various_confirm_state == Some(
            VariousConfirmState::Editing,
        ) {
            m.value_buffer + "_"@
        } else {
            "(overwrite all? press Enter)"@
        },
        AggregatedValueModel::Edited(s) => if typing {
            m.value_buffer + "_"@
        } else {
            s
        },
    }
}

/// The line of a field.
pub open spec fn field_row(m: DirectoryModel, i: int) -> LineModel {
    let f = m.aggregated_fields[i];
    let mark = if row_modified(m, i) && f.name != "New Tag"@ {
        "* "@
    } else {
        "  "@
    };
    line(
        padded(mark + f.name, 18) + " : "@ + row_value(m, i),
        if i == m.current_field_idx {
            Style::plain().bg(Color::DarkGray).bold()
        } else if f.value is Various {
            ink(Color::DarkGray)
        } else if row_modified(m, i) {
            ink(Color::Yellow)
        } else {
            Style::plain()
        },
    )
}

/// The lines of the fields.
pub open spec fn field_rows(m: DirectoryModel) -> Seq<LineModel> {
    Seq::new(m.aggregated_fields.len(), |i: int| field_row(m, i))
}

/// The pane of the fields.
pub open spec fn directory_fields_view(m: DirectoryModel, height: u16) -> PaneModel {
    let rows = inner_height(height) as nat;
    PaneModel {
        title: "Aggregated Tags"@ + scroll_note(
            m.aggregated_fields.len(),
            m.tag_scroll_offset as nat,
            rows,
        ),
        lines: window(field_rows(m), m.tag_scroll_offset as nat, rows),
        border: Style::plain(),
    }
}

/// The pane of the button.
pub open spec fn proceed_view(m: DirectoryModel) -> PaneModel {
    let focused = m.focus == DirectoryTagEditorFocus::ActionPane;
    PaneModel {
        title: "Action"@,
        lines: list4(
            blank(),
            line(
                if focused {
                    "[ Proceed ]"@
                } else {
                    "  Proceed  "@
                },
                if focused {
                    ink(Color::Black).bg(Color::Green).bold()
                } else {
                    ink(Color::Green)
                },
            ),
            blank(),
            line(decimal(m.changes().len()) + " changes"@, ink(Color::DarkGray)),
        ),
        border: if focused {
            ink(Color::Green)
        } else {
            Style::plain()
        },
    }
}

/// The line at the bottom: a message, or the keys.
pub open spec fn status_line(message: Option<Seq<char>>) -> LineModel {
    match message {
        Some(s) => line(s, ink(Color::Yellow)),
        None => line(
            "Tab/Shift+Tab = prev/next directory | Right = action | Enter = edit | Esc = exit"@,
            Style::plain(),
        ),
    }
}

// ---------------------------------------------------------------------------
// Modals
// ---------------------------------------------------------------------------

/// The line of a change.
pub open spec fn change_row() -> spec_fn(DirectoryTagChangeModel) -> LineModel {
    |c: DirectoryTagChangeModel|
        line(
            "  "@ + c.field_name + ": '"@ + (if c.new_value.len() == 0 {
                "(clear)"@
            } else {
                c.new_value
            }) + "'"@,
            ink(Color::White),
        )
}

/// All the lines of the preview.
pub open spec fn preview_lines(
    changes: Seq<DirectoryTagChangeModel>,
    total_files: usize,
) -> Seq<LineModel> {
    list2(
        line(
            "Changes will be applied to "@ + decimal(total_files as nat) + " files"@,
            Style::plain().bold().fg(Color::Cyan),
        ),
        blank(),
    ) + changes.map_values(change_row()) + list2(
        blank(),
        line("Press Enter/Y to confirm, Esc/N to cancel"@, ink(Color::DarkGray)),
    )
}

/// An offset that leaves no more of the window empty than must be.
#[verifier::allow_in_spec]
pub fn held_offset(offset: usize, total: usize, height: usize) -> usize
    returns
        (if total < height {
            0usize
        } else if offset < total - height {
            offset
        } else {
            (total - height) as usize
        }),
{
    if total < height {
        0usize
    } else if offset < total - height {
        offset
    } else {
        (total - height) as usize
    }
}

/// The preview of the changes in a window.
pub open spec fn preview_view(
    changes: Seq<DirectoryTagChangeModel>,
    total_files: usize,
    offset: usize,
    height: usize,
) -> Seq<LineModel> {
    let all = preview_lines(changes, total_files);
    window(all, held_offset(offset, all.len() as usize, height) as nat, height as nat)
}

/// The question on leaving a directory with unsaved changes.
pub open spec fn leaving_view(going_next: bool) -> PaneModel {
    PaneModel {
        title: "Unsaved Changes"@,
        lines: list6(
            blank(),
            line("You have unsaved changes."@, Style::plain().bold()),
            blank(),
            line(
                "Switch to "@ + (if going_next {
                    "next"@
                } else {
                    "previous"@
                }) + " directory?"@,
                Style::plain(),
            ),
            blank(),
            line_of(
                list5(
                    span("[S]ave & Switch"@, ink(Color::Green).bold()),
                    span("  "@, Style::plain()),
                    span("[D]iscard & Switch"@, ink(Color::Yellow)),
                    span("  "@, Style::plain()),
                    span("[C]ancel"@, ink(Color::Red)),
                ),
            ),
        ),
        border: ink(Color::Yellow),
    }
}

// ---------------------------------------------------------------------------
// Building
// ---------------------------------------------------------------------------

/// The suffixes of the files in lower case.
fn low_suffixes(files: &Vec<FileEntry>) -> (r: Vec<String>)
    ensures
        r.deep_view() == suffixes(files.deep_view()),
{
    let ghost s = files.deep_view();
    let mut out: Vec<String> = nothing();
    proof {
        crate::lists::lemma_picked_start(s, has_suffix(), low_suffix());
    }
    let mut i: usize = 0;
    while i < files.len()
        invariant
            i <= files.len(),
            s == files.deep_view(),
            out.deep_view() == picked(s.take(i as int), has_suffix(), low_suffix()),
        decreases files.len() - i,
    {
        proof {
            crate::lists::lemma_picked_step(s, i as int, has_suffix(), low_suffix());
        }
        if let Some(name) = paths::file_name(files[i].path.as_str()) {
            if let Some(suffix) = paths::suffix(name) {
                put(&mut out, text::to_lowercase(suffix));
            }
        }
        i = i + 1;
    }
    proof {
        assert(s.take(s.len() as int) =~= s);
    }
    out
}

/// How often a string occurs.
fn occurrences(all: &Vec<String>, s: &str) -> (r: usize)
    ensures
        r == chosen(all.deep_view(), equal_to(s@)).len(),
{
    let ghost v = all.deep_view();
    proof {
        lemma_chosen_start(v, equal_to(s@));
    }
    let mut n: usize = 0;
    let mut i: usize = 0;
    while i < all.len()
        invariant
            i <= all.len(),
            n <= i,
            v == all.deep_view(),
            n == chosen(v.take(i as int), equal_to(s@)).len(),
        decreases all.len() - i,
    {
        proof {
            lemma_chosen_step(v, i as int, equal_to(s@));
        }
        if text::same(all[i].as_str(), s) {
            n = n + 1;
        }
        i = i + 1;
    }
    proof {
        assert(v.take(v.len() as int) =~= v);
    }
    n
}

/// The formats of the files, the most frequent first.
fn format_counts(files: &Vec<FileEntry>) -> (r: Vec<FormatCount>)
    ensures
        r.deep_view() == formats(files.deep_view()),
{
    let all: Vec<String> = low_suffixes(files);
    let ghost v = all.deep_view();
    let mut kinds: Vec<String> = nothing();
    proof {
        assert(v.take(0) =~= Seq::<Seq<char>>::empty());
    }
    let mut i: usize = 0;
    while i < all.len()
        invariant
            i <= all.len(),
            v == all.deep_view(),
            kinds.deep_view() == distinct(v.take(i as int)),
        decreases all.len() - i,
    {
        proof {
            crate::lists::lemma_distinct_step(v, i as int);
        }
        put_new(&mut kinds, all[i].clone());
        i = i + 1;
    }
    proof {
        assert(v.take(v.len() as int) =~= v);
    }
    let ghost ks = kinds.deep_view();
    let mut out: Vec<FormatCount> = nothing();
    let mut k: usize = 0;
    while k < kinds.len()
        invariant
            k <= kinds.len(),
            v == all.deep_view(),
            ks == kinds.deep_view(),
            out.len() == k,
            forall|j: int| 0 <= j < k ==> (#[trigger] out[j]).deep_view() == counted(v)(ks[j]),
        decreases kinds.len() - k,
    {
        let n: usize = occurrences(&all, kinds[k].as_str());
        out.push(FormatCount { format: kinds[k].clone(), count: n });
        k = k + 1;
    }
    proof {
        assert(out.deep_view() =~= ks.map_values(counted(v)));
    }
    sorted(out)
}

impl DirectoryTagEditorState {
    /// Builds the popup while files are gathered.
    pub fn gathering_popup(&self) -> (r: Option<Pane>)
        ensures
            r.deep_view() == (match self@.gathering_state {
                Some(g) => Some(gathering_view(g)),
                None => None,
            }),
    {
        match &self.gathering_state {
            None => None,
            Some(g) => {
                let total: String = if g.total_files > 0 {
                    text::count(g.total_files)
                } else {
                    "...".to_owned()
                };
                let progress: String = text::cat4(
                    "Gathering metadata: ",
                    text::count(g.processed_files).as_str(),
                    "/",
                    total.as_str(),
                );
                let file: String = match &g.current_file {
                    Some(f) => text::truncate_left(f.as_str(), 40),
                    None => String::new(),
                };
                let mut lines: Vec<Line> = nothing();
                put(&mut lines, Line::blank());
                put(&mut lines, Line::styled(progress.as_str(), Style::plain().bold()));
                put(&mut lines, Line::blank());
                put(&mut lines, Line::styled(file.as_str(), ink(Color::DarkGray)));
                put(&mut lines, Line::blank());
                put(&mut lines, Line::styled("Press Esc to cancel", ink(Color::Yellow)));
                Some(
                    Pane {
                        title: "Loading Directory".to_owned(),
                        lines,
                        border: ink(Color::Cyan),
                    },
                )
            },
        }
    }

    /// Builds the pane on the directory.
    pub fn directory_info(&self) -> (r: Pane)
        ensures
            r.deep_view() == directory_view(self@),
    {
        let kinds: Vec<FormatCount> = format_counts(&self.files);
        let ghost ks = kinds.deep_view();
        let mut words: Vec<String> = nothing();
        let mut i: usize = 0;
        while i < kinds.len()
            invariant
                i <= kinds.len(),
                ks == kinds.deep_view(),
                words.len() == i,
                forall|j: int| 0 <= j < i ==> (#[trigger] words[j])@ == format_words()(ks[j]),
            decreases kinds.len() - i,
        {
            words.push(
                text::cat4(
                    kinds[i].format.as_str(),
                    " (",
                    text::count(kinds[i].count).as_str(),
                    ")",
                ),
            );
            i = i + 1;
        }
        proof {
            assert(words.deep_view() =~= ks.map_values(format_words()));
        }
        let joined: String = text::join(&words, ", ");
        let shown: &str = if joined.as_str().is_empty() {
            "none"
        } else {
            joined.as_str()
        };
        let mut lines: Vec<Line> = nothing();
        put(
            &mut lines,
            Line::raw(text::cat2("Path: ", self.current_directory.as_str()).as_str()),
        );
        put(
            &mut lines,
            Line::raw(
                text::cat4(
                    "Files: ",
                    text::count(self.files.len()).as_str(),
                    " | Formats: ",
                    shown,
                ).as_str(),
            ),
        );
        let name: String = paths::name_or(
            self.current_directory.as_str(),
            self.current_directory.as_str(),
        );
        Pane {
            title: text::cat2("Directory - ", name.as_str()),
            lines,
            border: Style::plain(),
        }
    }

    /// The name of a directory behind an indent, or nothing.
    fn beside(&self, i: usize) -> (r: String)
        ensures
            r@ == beside(self@, i as int),
    {
        if i < self.sibling_directories.len() {
            match paths::file_name(self.sibling_directories[i].as_str()) {
                Some(name) => text::cat2("   ", name),
                None => String::new(),
            }
        } else {
            String::new()
        }
    }

    /// Builds the pane on the directories beside this one.
    pub fn sibling_spinner(&self) -> (r: Pane)
        ensures
            r.deep_view() == siblings_view(self@),
    {
        let prev: String = if self.current_sibling_idx > 0 {
            self.beside(self.current_sibling_idx - 1)
        } else {
            String::new()
        };
        let next: String = if self.current_sibling_idx < self.sibling_directories.len() {
            self.beside(self.current_sibling_idx + 1)
        } else {
            String::new()
        };
        let here: String = match paths::file_name(self.current_directory.as_str()) {
            Some(name) => text::cat2("-> ", name),
            None => "-> (unknown)".to_owned(),
        };
        let mut lines: Vec<Line> = nothing();
        put(&mut lines, Line::styled(prev.as_str(), ink(Color::DarkGray)));
        put(&mut lines, Line::styled(here.as_str(), ink(Color::Cyan).bold()));
        put(&mut lines, Line::styled(next.as_str(), ink(Color::DarkGray)));
        Pane {
            title: text::cat5(
                "Siblings [",
                text::place(self.current_sibling_idx).as_str(),
                "/",
                text::count(self.sibling_directories.len()).as_str(),
                "]",
            ),
            lines,
            border: Style::plain(),
        }
    }

    /// Builds the list of files.
    pub fn file_list(&mut self, height: u16) -> (r: Pane)
        ensures
            r.deep_view() == files_view(old(self)@, height),
            final(self)@ == (DirectoryModel {
                file_visible_height: inner_height(height),
                ..old(self)@
            }),
    {
        let rows: usize = inner_height(height);
        let mut lines: Vec<Line> = nothing();
        let mut i: usize = 0;
        while i < self.files.len()
            invariant
                i <= self.files.len(),
                self@ == old(self)@,
                lines.len() == i,
                forall|k: int|
                    0 <= k < i ==> (#[trigger] lines[k]).deep_view() == file_row(self@, k),
            decreases self.files.len() - i,
        {
            let style: Style = if i == self.selected_file_idx {
                Style::plain().bg(Color::DarkGray)
            } else {
                Style::plain()
            };
            lines.push(Line::styled(self.files[i].filename.as_str(), style));
            i = i + 1;
        }
        proof {
            assert(lines.deep_view() =~= file_rows(self@));
        }
        let title: String = text::cat2(
            "Files",
            scroll_indicator(self.files.len(), self.file_scroll_offset, rows).as_str(),
        );
        let lines: Vec<Line> = visible(lines, self.file_scroll_offset, rows);
        self.file_visible_height = rows;
        Pane { title, lines, border: Style::plain() }
    }

    /// Whether the field at a place differs from what stood there.
    fn row_modified(&self, i: usize) -> (r: bool)
        requires
            i < self.aggregated_fields.len(),
        ensures
            r == row_modified(self@, i as int),
    {
        if i < self.original_aggregated_fields.len() {
            !self.original_aggregated_fields[i].value.same(&self.aggregated_fields[i].value)
        } else {
            true
        }
    }

    /// The value of a field as its line shows it.
    fn row_value(&self, i: usize) -> (r: String)
        requires
            i < self.aggregated_fields.len(),
        ensures
            r@ == row_value(self@, i as int),
    {
        let typing: bool = i == self.current_field_idx && self.field_edit_state
            != FieldEditState::NonEditable;
        match &self.aggregated_fields[i].value {
            AggregatedValue::Consistent(s) => if typing {
                text::cat2(self.value_buffer.as_str(), "_")
            } else {
                s.clone()
            },
            AggregatedValue::Various => "(various values)".to_owned(),
            AggregatedValue::VariousConfirming => {
                let editing: bool = match self.various_confirm_state {
                    Some(VariousConfirmState::Editing) => true,
                    _ => false,
                };
                if editing {
                    text::cat2(self.value_buffer.as_str(), "_")
                } else {
                    "(overwrite all? press Enter)".to_owned()
                }
            },
            AggregatedValue::Edited(s) => if typing {
                text::cat2(self.value_buffer.as_str(), "_")
            } else {
                s.clone()
            },
        }
    }

    /// Builds the line of a field.
    fn field_row(&self, i: usize) -> (r: Line)
        requires
            i < self.aggregated_fields.len(),
        ensures
            r.deep_view() == field_row(self@, i as int),
    {
        let f: &AggregatedTagField = &self.aggregated_fields[i];
        let modified: bool = self.row_modified(i);
        let mark: &str = if modified && !text::same(f.name.as_str(), "New Tag") {
            "* "
        } else {
            "  "
        };
        let various: bool = match &f.value {
            AggregatedValue::Various => true,
            _ => false,
        };
        let style: Style = if i == self.current_field_idx {
            Style::plain().bg(Color::DarkGray).bold()
        } else if various {
            ink(Color::DarkGray)
        } else if modified {
            ink(Color::Yellow)
        } else {
            Style::plain()
        };
        let name: String = text::pad(text::cat2(mark, f.name.as_str()).as_str(), 18);
        Line::styled(
            text::cat3(name.as_str(), " : ", self.row_value(i).as_str()).as_str(),
            style,
        )
    }

    /// Builds the pane of the fields.
    pub fn tag_fields_pane(&mut self, height: u16) -> (r: Pane)
        ensures
            r.deep_view() == directory_fields_view(old(self)@, height),
            final(self)@ == (DirectoryModel {
                tag_visible_height: inner_height(height),
                ..old(self)@
            }),
    {
        let rows: usize = inner_height(height);
        let mut lines: Vec<Line> = nothing();
        let mut i: usize = 0;
        while i < self.aggregated_fields.len()
            invariant
                i <= self.aggregated_fields.len(),
                self@ == old(self)@,
                lines.len() == i,
                forall|k: int|
                    0 <= k < i ==> (#[trigger] lines[k]).deep_view() == field_row(self@, k),
            decreases self.aggregated_fields.len() - i,
        {
            lines.push(self.field_row(i));
            i = i + 1;
        }
        proof {
            assert(lines.deep_view() =~= field_rows(self@));
        }
        let title: String = text::cat2(
            "Aggregated Tags",
            scroll_indicator(
                self.aggregated_fields.len(),
                self.tag_scroll_offset,
                rows,
            ).as_str(),
        );
        let lines: Vec<Line> = visible(lines, self.tag_scroll_offset, rows);
        self.tag_visible_height = rows;
        Pane { title, lines, border: Style::plain() }
    }

    /// Builds the pane of the button.
    pub fn proceed_panel(&self) -> (r: Pane)
        ensures
            r.deep_view() == proceed_view(self@),
    {
        let focused: bool = self.focus == DirectoryTagEditorFocus::ActionPane;
        let n: usize = self.compute_changes().len();
        let mut lines: Vec<Line> = nothing();
        put(&mut lines, Line::blank());
        put(
            &mut lines,
            if focused {
                Line::styled("[ Proceed ]", ink(Color::Black).bg(Color::Green).bold())
            } else {
                Line::styled("  Proceed  ", ink(Color::Green))
            },
        );
        put(&mut lines, Line::blank());
        put(
            &mut lines,
            Line::styled(
                text::cat2(text::count(n).as_str(), " changes").as_str(),
                ink(Color::DarkGray),
            ),
        );
        Pane {
            title: "Action".to_owned(),
            lines,
            border: if focused {
                ink(Color::Green)
            } else {
                Style::plain()
            },
        }
    }

    /// Builds the line at the bottom.
    pub fn status_box(&self, message: Option<String>) -> (r: Line)
        ensures
            r.deep_view() == status_line(message.deep_view()),
    {
        match message {
            Some(s) => Line::styled(s.as_str(), ink(Color::Yellow)),
            None => Line::raw(
                "Tab/Shift+Tab = prev/next directory | Right = action | Enter = edit | Esc = exit",
            ),
        }
    }
}

/// Builds the preview of the changes in a window.
pub fn directory_change_preview(
    changes: &Vec<DirectoryTagChange>,
    total_files: usize,
    scroll_offset: usize,
    height: usize,
) -> (r: Vec<Line>)
    ensures
        r.deep_view() == preview_view(changes.deep_view(), total_files, scroll_offset, height),
{
    let ghost cs = changes.deep_view();
    let mut lines: Vec<Line> = nothing();
    put(
        &mut lines,
        Line::styled(
            text::cat3(
                "Changes will be applied to ",
                text::count(total_files).as_str(),
                " files",
            ).as_str(),
            Style::plain().bold().fg(Color::Cyan),
        ),
    );
    put(&mut lines, Line::blank());
    let mut rows: Vec<Line> = nothing();
    let mut i: usize = 0;
    while i < changes.len()
        invariant
            i <= changes.len(),
            cs == changes.deep_view(),
            rows.len() == i,
            forall|k: int| 0 <= k < i ==> (#[trigger] rows[k]).deep_view() == change_row()(cs[k]),
        decreases changes.len() - i,
    {
        let value: &str = if changes[i].new_value.as_str().is_empty() {
            "(clear)"
        } else {
            changes[i].new_value.as_str()
        };
        rows.push(
            Line::styled(
                text::cat5("  ", changes[i].field_name.as_str(), ": '", value, "'").as_str(),
                ink(Color::White),
            ),
        );
        i = i + 1;
    }
    proof {
        assert(rows.deep_view() =~= cs.map_values(change_row()));
    }
    put_all(&mut lines, rows);
    let mut tail: Vec<Line> = nothing();
    put(&mut tail, Line::blank());
    put(
        &mut tail,
        Line::styled("Press Enter/Y to confirm, Esc/N to cancel", ink(Color::DarkGray)),
    );
    put_all(&mut lines, tail);
    let from: usize = held_offset(scroll_offset, lines.len(), height);
    visible(lines, from, height)
}

/// Builds the question on leaving a directory with unsaved changes.
pub fn unsaved_changes_modal(going_next: bool) -> (r: Pane)
    ensures
        r.deep_view() == leaving_view(going_next),
{
    let direction: &str = if going_next {
        "next"
    } else {
        "previous"
    };
    let mut spans: Vec<Span> = nothing();
    put(&mut spans, Span::styled("[S]ave & Switch", ink(Color::Green).bold()));
    put(&mut spans, Span::raw("  "));
    put(&mut spans, Span::styled("[D]iscard & Switch", ink(Color::Yellow)));
    put(&mut spans, Span::raw("  "));
    put(&mut spans, Span::styled("[C]ancel", ink(Color::Red)));
    let mut lines: Vec<Line> = nothing();
    put(&mut lines, Line::blank());
    put(&mut lines, Line::styled("You have unsaved changes.", Style::plain().bold()));
    put(&mut lines, Line::blank());
    put(&mut lines, Line::raw(text::cat3("Switch to ", direction, " directory?").as_str()));
    put(&mut lines, Line::blank());
    put(&mut lines, Line::of(spans));
    Pane { title: "Unsaved Changes".to_owned(), lines, border: ink(Color::Yellow) }
}

/// However far it was scrolled, the preview fills its window as long as it has
/// lines enough.
pub proof fn law_preview_fills_window(
    changes: Seq<DirectoryTagChangeModel>,
    total_files: usize,
    offset: usize,
    height: usize,
)
    requires
        preview_lines(changes, total_files).len() <= usize::MAX,
    ensures
        preview_lines(changes, total_files).len() >= height ==> preview_view(
            changes,
            total_files,
            offset,
            height,
        ).len() == height,
        preview_lines(changes, total_files).len() < height ==> preview_view(
            changes,
            total_files,
            offset,
            height,
        ) == preview_lines(changes, total_files),
{
    let all = preview_lines(changes, total_files);
    assert(all.skip(0) =~= all);
}

/// Each field of the directory has a line with its name and its value, or what is
/// typed; a star marks one that was changed, and the one in hand is lit.
pub proof fn law_field_lines(m: DirectoryModel, i: int)
    requires
        0 <= i < m.aggregated_fields.len(),
    ensures
        ({
            let l = field_rows(m)[i];
            let f = m.aggregated_fields[i];
            let typing = i == m.current_field_idx && m.field_edit_state
                != FieldEditState::NonEditable;
            let changed = i >= m.original_aggregated_fields.len()
                || m.original_aggregated_fields[i].value != f.value;
            let mark = if changed && f.name != "New Tag"@ {
                "* "@
            } else {
                "  "@
            };
            let start = padded(mark + f.name, 18) + " : "@;
            &&& field_rows(m).len() == m.aggregated_fields.len()
            &&& f.value is Consistent && !typing ==> l.spans[0].text == start
                + f.value->Consistent_0
            &&& f.value is Edited && !typing ==> l.spans[0].text == start + f.value->Edited_0
            &&& (f.value is Consistent || f.value is Edited) && typing ==> l.spans[0].text == start
                + (m.value_buffer + "_"@)
            &&& f.value is Various ==> l.spans[0].text == start + "(various values)"@
            &&& l.style.bg is Some <==> i == m.current_field_idx
        }),
{
}

/// Each file has a line with its name, and the one in hand is lit.
pub proof fn law_file_lines(m: DirectoryModel, i: int)
    requires
        0 <= i < m.files.len(),
    ensures
        file_rows(m).len() == m.files.len(),
        file_rows(m)[i].spans[0].text == m.files[i].filename,
        file_rows(m)[i].style.bg is Some <==> i == m.selected_file_idx,
{
}

/// The formats of a directory are those of its files, each with how many have it,
/// the commoner first.
pub proof fn law_formats_are_counted(files: Seq<FileEntryModel>)
    ensures
        forall|c: FormatCountModel| #[trigger]
            formats(files).contains(c) <==> suffixes(files).contains(c.format) && c.count
                == crate::lists::tally(suffixes(files), |s: Seq<char>| s == c.format),
        forall|i: int, j: int|
            0 <= i < j < formats(files).len() ==> (#[trigger] formats(files)[i]).count >= (
            #[trigger] formats(files)[j]).count,
        suffixes(files).len() == crate::lists::tally(
            files,
            |f: FileEntryModel| path_suffix(f.path) is Some,
        ),
{
    let all = suffixes(files);
    let each = distinct(all).map_values(counted(all));
    let first = |a: FormatCountModel, b: FormatCountModel| FormatCount::precedes(a, b);
    crate::lists::law_distinct(all);
    crate::lists::law_picked(files, has_suffix(), low_suffix());
    assert((|f: FileEntryModel| path_suffix(f.path) is Some) =~= has_suffix());
    crate::ordering::law_in_order(each, first);
    crate::ordering::law_in_order_contains(each, first);
    assert forall|c: FormatCountModel| #[trigger] formats(files).contains(c) <==> all.contains(
        c.format,
    ) && c.count == crate::lists::tally(all, |s: Seq<char>| s == c.format) by {
        assert((|s: Seq<char>| s == c.format) =~= equal_to(c.format));
        if each.contains(c) {
            let k = choose|k: int| 0 <= k < each.len() && each[k] == c;
            assert(distinct(all).contains(distinct(all)[k]));
            assert(distinct(all)[k] == c.format);
        }
        if all.contains(c.format) && c.count == crate::lists::tally(all, equal_to(c.format)) {
            assert(distinct(all).contains(c.format));
            let k = choose|k: int| 0 <= k < distinct(all).len() && distinct(all)[k] == c.format;
            assert(each[k] == c);
            assert(each.contains(c));
        }
    }
    let r = formats(files);
    assert forall|i: int, j: int| 0 <= i < j < r.len() implies (#[trigger] r[i]).count >= (
    #[trigger] r[j]).count by {
        assert(!first(r[j], r[i]));
    }
}

/// Each change is shown with its field and its new value, behind how many files it
/// goes to.
pub proof fn law_changes_are_previewed(
    changes: Seq<DirectoryTagChangeModel>,
    total_files: usize,
    i: int,
)
    requires
        0 <= i < changes.len(),
    ensures
        preview_lines(changes, total_files).len() == changes.len() + 4,
        preview_lines(changes, total_files)[0].spans[0].text == "Changes will be applied to "@
            + decimal(total_files as nat) + " files"@,
        changes[i].new_value.len() > 0 ==> preview_lines(changes, total_files)[i + 2].spans[0].text
            == "  "@ + changes[i].field_name + ": '"@ + changes[i].new_value + "'"@,
        changes[i].new_value.len() == 0 ==> preview_lines(changes, total_files)[i + 2].spans[0].text
            == "  "@ + changes[i].field_name + ": '"@ + "(clear)"@ + "'"@,
{
}

} // verus!
