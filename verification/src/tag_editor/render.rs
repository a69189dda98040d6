//! What the tag editor shows.

use vstd::prelude::*;

use crate::corpus::{AudioFile, AudioFileModel};
use crate::file_size::{size_label, size_text};
use crate::lists::{chosen, first_place, lemma_chosen_start, lemma_chosen_step};
use crate::paths;
use crate::screen::{blank, ink, inner_height, line, line_of, list2, list3, list7, nothing, put, put_all, scroll_indicator, scroll_note, span, window, Color, Line, LineModel, Pane, PaneModel, Span, Style};
use crate::tag_editor::model::EditorModel;
use crate::tag_editor::mutations::{all_changes, compute_changes};
use crate::tag_editor::state::UnifiedTagEditorState;
use crate::tag_editor::types::{AggregatedTagField, AggregatedTagFieldModel, AggregatedValue, AggregatedValueModel, FieldEditState, TagEditContext, TagEditContextModel, TagEditorButton, TagEditorSource, TagField, TagFieldModel, UnifiedTagEditorFocus, UnifiedTagEditorModal, UnifiedTagEditorModalModel, UnsavedChangesButton};
use crate::text::{self, decimal, lowercase, minutes_and_seconds, padded, same_but_case, signed_decimal, uppercase};

verus! {

// ---------------------------------------------------------------------------
// File info
// ---------------------------------------------------------------------------

/// A length of time, or that it is unknown.
pub open spec fn duration_text(ms: Option<i64>) -> Seq<char> {
    match ms {
        Some(n) => minutes_and_seconds(n as int),
        None => "Unknown"@,
    }
}

/// A number with its unit, or that it is unknown.
pub open spec fn measure_text(n: Option<i32>, unit: Seq<char>) -> Seq<char> {
    match n {
        Some(k) => signed_decimal(k as int) + unit,
        None => "Unknown"@,
    }
}

/// A length of time, or that it is unknown.
pub fn duration_label(ms: Option<i64>) -> (r: String)
    ensures
        r@ == duration_text(ms),
{
    match ms {
        Some(n) => text::clock(n),
        None => "Unknown".to_owned(),
    }
}

/// A number with its unit, or that it is unknown.
pub fn measure_label(n: Option<i32>, unit: &str) -> (r: String)
    ensures
        r@ == measure_text(n, unit@),
{
    match n {
        Some(k) => text::cat2(text::signed(k as i64).as_str(), unit),
        None => "Unknown".to_owned(),
    }
}

/// The facts of a file in one line.
pub open spec fn facts_text(
    file_type: Seq<char>,
    file_size: i64,
    duration_ms: Option<i64>,
    bitrate_kbps: Option<i32>,
    sample_rate: Option<i32>,
) -> Seq<char> {
    "Format: "@ + uppercase(file_type) + " | Size: "@ + size_text(file_size as int)
        + " | Duration: "@ + duration_text(duration_ms) + " | Bitrate: "@ + measure_text(bitrate_kbps, " kbps"@) + " | Sample Rate: "@
        + measure_text(sample_rate, " Hz"@)
}

/// Writes the facts of a file in one line.
pub fn facts_label(
    file_type: &str,
    file_size: i64,
    duration_ms: Option<i64>,
    bitrate_kbps: Option<i32>,
    sample_rate: Option<i32>,
) -> (r: String)
    ensures
        r@ == facts_text(file_type@, file_size, duration_ms, bitrate_kbps, sample_rate),
{
    let mut s: String = text::cat2("Format: ", text::to_uppercase(file_type).as_str());
    s.append(" | Size: ");
    s.append(size_label(file_size).as_str());
    s.append(" | Duration: ");
    s.append(duration_label(duration_ms).as_str());
    s.append(" | Bitrate: ");
    s.append(measure_label(bitrate_kbps, " kbps").as_str());
    s.append(" | Sample Rate: ");
    s.append(measure_label(sample_rate, " Hz").as_str());
    s
}

/// The info pane on a file.
pub open spec fn info_view(m: EditorModel, f: AudioFileModel) -> PaneModel {
    let facts = list2(
        line("Path: "@ + f.path, Style::plain()),
        line(
            facts_text(f.file_type, f.file_size, f.duration_ms, f.bitrate_kbps, f.sample_rate),
            Style::plain(),
        ),
    );
    PaneModel {
        title: "File Info ["@ + decimal((m.current_item_idx + 1) as nat) + "/"@ + decimal(
            m.total_items as nat,
        ) + "]"@,
        lines: if lowercase(f.file_type) == "mp3"@ {
            facts.push(
                line_of(
                    seq![
                        span(
                            "Warning: MP3 files use ID3v2.3 tags with limited field support. Some tag writes may fail."@,
                            ink(Color::Rgb(255, 140, 0)),
                        ),
                    ],
                ),
            )
        } else {
            facts
        },
        border: Style::plain(),
    }
}

// ---------------------------------------------------------------------------
// List of files
// ---------------------------------------------------------------------------

/// The name of a file, as lists show it.
pub open spec fn listed_name(path: Seq<char>) -> Seq<char> {
    match paths::name_in(path) {
        Some(name) => name,
        None => "Unknown"@,
    }
}

/// Whether the fields of a file differ from what they were.
pub open spec fn differs(m: EditorModel, idx: int) -> bool {
    0 <= idx < m.tag_fields.len() && idx < m.original_tag_fields.len() && m.tag_fields[idx]
        != m.original_tag_fields[idx]
}

/// The line of a file among others.
pub open spec fn file_line(m: EditorModel, files: Seq<AudioFileModel>, idx: int) -> LineModel {
    let current = idx == m.current_item_idx;
    let changed = differs(m, idx);
    let mark = if current {
        ">> "@
    } else if changed {
        "✎ "@
    } else {
        "   "@
    };
    let style = if current && changed {
        Style::plain().bg(Color::DarkGray).fg(Color::Blue)
    } else if current {
        Style::plain().bg(Color::DarkGray)
    } else if changed {
        ink(Color::Blue)
    } else {
        Style::plain()
    };
    line(mark + listed_name(files[idx].path), style)
}

/// The first file of a list that keeps the file in hand in its middle, as far
/// as the list reaches.
pub open spec fn centred(idx: nat, total: nat, height: nat) -> nat {
    let ideal: nat = if idx < height / 2 {
        0
    } else {
        (idx - height / 2) as nat
    };
    let last: nat = if total < height {
        0
    } else {
        (total - height) as nat
    };
    if ideal < last {
        ideal
    } else {
        last
    }
}

/// The lines on the files in hand.
pub open spec fn context_lines(m: EditorModel, height: u16) -> Seq<LineModel> {
    if m.aggregated() {
        list3(
            line(
                ">> "@ + decimal(m.total_items as nat) + " tracks"@,
                Style::plain().bg(Color::DarkGray),
            ),
            blank(),
            line("(bulk edit)"@, ink(Color::DarkGray)),
        )
    } else {
        match m.context {
            TagEditContextModel::SingleFile { audio_file, group_context, .. } => {
                let first = seq![
                    line(
                        ">> "@ + listed_name(audio_file.path),
                        Style::plain().bg(Color::DarkGray),
                    ),
                ];
                match group_context {
                    Some(g) => first.push(blank()).push(
                        line(
                            "Group "@ + decimal((g.group_index + 1) as nat) + "/"@ + decimal(
                                g.total_groups as nat,
                            ),
                            ink(Color::DarkGray),
                        ),
                    ),
                    None => first,
                }
            },
            TagEditContextModel::BulkEdit { audio_files, .. } => window(
                Seq::new(audio_files.len(), |i: int| file_line(m, audio_files, i)),
                centred(
                    m.current_item_idx as nat,
                    audio_files.len(),
                    inner_height(height) as nat,
                ),
                inner_height(height) as nat,
            ),
        }
    }
}

/// The title of the list of files.
pub open spec fn context_title(m: EditorModel) -> Seq<char> {
    if m.aggregated() {
        "Selection"@
    } else {
        match m.context {
            TagEditContextModel::SingleFile { source, .. } => match source {
                TagEditorSource::TagSearch => "Search Result"@,
                _ => "File"@,
            },
            TagEditContextModel::BulkEdit { source, .. } => match source {
                TagEditorSource::DirectoryEdit => "Directory"@,
                _ => "Files"@,
            },
        }
    }
}

/// The editor after its list of files was laid out: many files edited one by
/// one scroll to the file in hand.
pub open spec fn context_laid_out(m: EditorModel, height: u16) -> EditorModel {
    if m.aggregated() || m.context is SingleFile {
        m
    } else {
        EditorModel {
            context_list_visible_height: inner_height(height),
            context_list_scroll_offset: centred(
                m.current_item_idx as nat,
                m.context.files().len(),
                inner_height(height) as nat,
            ) as usize,
            ..m
        }
    }
}

// ---------------------------------------------------------------------------
// Fields
// ---------------------------------------------------------------------------

/// Whether a field is among the original ones, not marked for deletion.
pub open spec fn was_there(original: Seq<TagFieldModel>, f: TagFieldModel) -> bool {
    exists|i: int|
        0 <= i < original.len() && same_but_case((#[trigger] original[i]).name, f.name)
            && original[i].value == f.value && !original[i].deleted
}

/// Whether a field of the file in hand is new or changed.
pub open spec fn is_modified(m: EditorModel, f: TagFieldModel) -> bool {
    m.current_item_idx >= m.original_tag_fields.len() || !was_there(
        m.original_tag_fields[m.current_item_idx as int],
        f,
    )
}

/// The condition of bearing a name in lower case.
pub open spec fn quiet(name: Seq<char>) -> spec_fn(TagFieldModel) -> bool {
    |f: TagFieldModel| lowercase(f.name) == name
}

/// The condition of bearing a name in lower case and not being the line that
/// creates a tag.
pub open spec fn quiet_tag(name: Seq<char>) -> spec_fn(TagFieldModel) -> bool {
    |f: TagFieldModel| lowercase(f.name) == name && f.name != "New Tag"@
}

/// The styles of name and value of the line in hand: the part with the focus is
/// lit.
pub open spec fn lit(focus_on_value: bool) -> (Style, Style) {
    let dim = Style::plain().bold().bg(Color::DarkGray);
    let bright = Style::plain().bold().bg(Color::Cyan).fg(Color::Black);
    if focus_on_value {
        (dim, bright)
    } else {
        (bright, dim)
    }
}

/// The line of a field: an indicator, the name, and the value. A tag with
/// several values shows how many at the first of them.
pub open spec fn field_line(m: EditorModel, fields: Seq<TagFieldModel>, idx: int) -> LineModel {
    let f = fields[idx];
    let current = idx == m.current_field_idx;
    let modified = is_modified(m, f);
    let name = if current && m.field_edit_state == FieldEditState::EditingName {
        m.name_buffer + "▌"@
    } else {
        f.name
    };
    let indicator = if f.deleted {
        "✗ "@
    } else if modified {
        "✎ "@
    } else {
        "  "@
    };
    let low = lowercase(f.name);
    let count = chosen(fields, quiet_tag(low)).len();
    let value = if current && m.field_edit_state == FieldEditState::EditingValue {
        m.value_buffer + "▌"@
    } else if count > 1 && first_place(fields, 0, quiet(low)) == idx {
        "["@ + decimal(count) + " values]"@
    } else if count > 1 {
        "  └ "@ + f.value
    } else {
        f.value
    };
    let (name_style, value_style) = if current {
        lit(m.focus_on_value)
    } else if f.deleted {
        (ink(Color::Red), ink(Color::Red))
    } else if modified {
        (ink(Color::Yellow), ink(Color::Yellow))
    } else {
        (Style::plain(), Style::plain())
    };
    line_of(
        list3(
            span(
                padded(indicator + name, 18),
                if f.deleted {
                    name_style.crossed_out()
                } else {
                    name_style
                },
            ),
            span(" : "@, Style::plain()),
            span(
                value,
                if f.deleted {
                    value_style.crossed_out()
                } else {
                    value_style
                },
            ),
        ),
    )
}

/// The line of an aggregate.
pub open spec fn aggregate_line(m: EditorModel, f: AggregatedTagFieldModel, idx: int) -> LineModel {
    let current = idx == m.current_field_idx;
    let modified = f.value != f.original_value;
    let name = if current && m.field_edit_state == FieldEditState::EditingName {
        m.name_buffer + "▌"@
    } else {
        f.name
    };
    let indicator = if modified {
        "✎ "@
    } else {
        "  "@
    };
    let value = if current && m.field_edit_state == FieldEditState::EditingValue {
        m.value_buffer + "▌"@
    } else {
        match f.value {
            AggregatedValueModel::Consistent(v) => if v.len() == 0 {
                "(empty)"@
            } else {
                v
            },
            AggregatedValueModel::Various => "(various values)"@,
            AggregatedValueModel::VariousConfirming => "(press Enter to edit all)"@,
            AggregatedValueModel::Edited(v) => "→ "@ + v,
        }
    };
    let (name_style, value_style) = if current {
        lit(m.focus_on_value)
    } else if modified {
        (ink(Color::Yellow), ink(Color::Yellow))
    } else if f.value is Various {
        (Style::plain(), ink(Color::Magenta))
    } else {
        (Style::plain(), Style::plain())
    };
    line_of(
        list3(
            span(padded(indicator + name, 18), name_style),
            span(" : "@, Style::plain()),
            span(value, value_style),
        ),
    )
}

/// The style of the frame of the fields.
pub open spec fn fields_border(m: EditorModel) -> Style {
    if m.focus == UnifiedTagEditorFocus::TagFields {
        ink(Color::Cyan)
    } else {
        Style::plain()
    }
}

/// The pane of the fields, or nothing where no file is in hand.
pub open spec fn fields_view(m: EditorModel, height: u16) -> Option<PaneModel> {
    let rows = inner_height(height) as nat;
    match m.aggregated_fields {
        Some(agg) => Some(
            PaneModel {
                title: "Directory Tags ("@ + decimal(m.total_items as nat) + " files)"@
                    + scroll_note(agg.len(), m.field_scroll_offset as nat, rows),
                lines: window(
                    Seq::new(agg.len(), |i: int| aggregate_line(m, agg[i], i)),
                    m.field_scroll_offset as nat,
                    rows,
                ),
                border: fields_border(m),
            },
        ),
        None => match m.fields_in_hand() {
            Some(fields) => Some(
                PaneModel {
                    title: "Tag Fields"@ + scroll_note(
                        fields.len(),
                        m.field_scroll_offset as nat,
                        rows,
                    ),
                    lines: window(
                        Seq::new(fields.len(), |i: int| field_line(m, fields, i)),
                        m.field_scroll_offset as nat,
                        rows,
                    ),
                    border: fields_border(m),
                },
            ),
            None => None,
        },
    }
}

/// The editor after its fields were laid out: it knows how many are shown.
pub open spec fn fields_laid_out(m: EditorModel, height: u16) -> EditorModel {
    if m.aggregated_fields is None && m.fields_in_hand() is None {
        m
    } else {
        EditorModel { field_visible_height: inner_height(height), ..m }
    }
}

// ---------------------------------------------------------------------------
// Buttons
// ---------------------------------------------------------------------------

/// The words on a button.
pub open spec fn button_words(b: TagEditorButton) -> Seq<char> {
    match b {
        TagEditorButton::ReviewAll => "Review All"@,
        TagEditorButton::RevertThisFile => "Revert This File"@,
        TagEditorButton::FillFromDisk => "Fill from Disk"@,
        TagEditorButton::FillFromDb => "Fill from DB"@,
    }
}

/// The line of a button. One that has nothing to do is grey.
pub open spec fn button_line(m: EditorModel, b: TagEditorButton) -> LineModel {
    let selected = b == m.selected_button;
    let focused = m.focus == UnifiedTagEditorFocus::Actions;
    let color = match b {
        TagEditorButton::ReviewAll => if m.staged_decision_count > 0 || m.has_changes() {
            Color::Green
        } else {
            Color::DarkGray
        },
        TagEditorButton::RevertThisFile => if m.has_changes() {
            Color::Red
        } else {
            Color::DarkGray
        },
        _ => Color::Green,
    };
    let style = if focused && selected {
        ink(Color::Black).bg(color).bold()
    } else if selected {
        ink(color)
    } else {
        ink(Color::DarkGray)
    };
    line(
        if selected {
            "[ "@ + button_words(b) + " ]"@
        } else {
            "  "@ + button_words(b) + "  "@
        },
        style,
    )
}

/// The lines of some buttons.
pub open spec fn button_lines(m: EditorModel, buttons: Seq<TagEditorButton>) -> Seq<LineModel> {
    buttons.map_values(|b: TagEditorButton| button_line(m, b))
}

/// The pane of the buttons.
pub open spec fn actions_view(m: EditorModel) -> PaneModel {
    PaneModel {
        title: "Actions"@,
        lines: seq![blank()] + button_lines(m, m.buttons()) + list2(
            blank(),
            line(
                decimal(all_changes(m.original_tag_fields, m.tag_fields).len()) + " changes"@,
                ink(Color::DarkGray),
            ),
        ),
        border: if m.focus == UnifiedTagEditorFocus::Actions {
            ink(Color::Green)
        } else {
            Style::plain()
        },
    }
}

// ---------------------------------------------------------------------------
// Modals
// ---------------------------------------------------------------------------

/// The modal on unsaved changes.
pub open spec fn unsaved_view(selected: UnsavedChangesButton) -> PaneModel {
    let (keep, discard) = match selected {
        UnsavedChangesButton::KeepEditing => (
            ink(Color::Black).bg(Color::Green),
            ink(Color::Red),
        ),
        UnsavedChangesButton::DiscardAndProceed => (
            ink(Color::Green),
            ink(Color::Black).bg(Color::Red),
        ),
    };
    PaneModel {
        title: "Unsaved Changes"@,
        lines: list7(
            blank(),
            line("You have unsaved changes."@, Style::plain()),
            line("Discard changes and exit the editor?"@, Style::plain()),
            blank(),
            line_of(
                list3(
                    span(" Keep Editing "@, keep),
                    span("    "@, Style::plain()),
                    span(" Discard "@, discard),
                ),
            ),
            blank(),
            line_of(
                seq![
                    span(
                        "←/→/Tab to switch  •  Enter to confirm  •  Esc to cancel"@,
                        ink(Color::DarkGray),
                    ),
                ],
            ),
        ),
        border: ink(Color::Yellow),
    }
}

/// The line of a value in the modal with all values.
pub open spec fn value_line(
    value: Seq<char>,
    current: bool,
    editing: bool,
    edit_buffer: Seq<char>,
) -> LineModel {
    line(
        if current && editing {
            "  > "@ + edit_buffer + "▌"@
        } else if current {
            "  > "@ + value
        } else {
            "    "@ + value
        },
        if current {
            Style::plain().bg(Color::DarkGray).bold()
        } else {
            Style::plain()
        },
    )
}

/// The lines of the values in the modal with all values.
pub open spec fn value_lines(
    values: Seq<Seq<char>>,
    at: usize,
    editing: bool,
    edit_buffer: Seq<char>,
) -> Seq<LineModel> {
    Seq::new(values.len(), |i: int| value_line(values[i], i == at, editing, edit_buffer))
}

/// The line that adds a value.
pub open spec fn add_value_line(
    current: bool,
    editing: bool,
    edit_buffer: Seq<char>,
) -> LineModel {
    line(
        if current && editing {
            "  > + "@ + edit_buffer + "▌"@
        } else if current {
            "  > + Add value"@
        } else {
            "    + Add value"@
        },
        if current {
            ink(Color::Green).bg(Color::DarkGray).bold()
        } else {
            ink(Color::Green)
        },
    )
}

/// The modal with all the values of a tag.
pub open spec fn values_view(
    m: EditorModel,
    field_idx: usize,
    values: Seq<Seq<char>>,
    at: usize,
    editing: bool,
    edit_buffer: Seq<char>,
) -> PaneModel {
    let name = match m.fields_in_hand() {
        Some(fields) => if field_idx < fields.len() {
            fields[field_idx as int].name
        } else {
            "Tag"@
        },
        None => "Tag"@,
    };
    PaneModel {
        title: "Edit: "@ + name,
        lines: value_lines(values, at, editing, edit_buffer) + list3(
            add_value_line(at == values.len(), editing, edit_buffer),
            blank(),
            line("↑↓ Navigate | Enter Edit | Del Remove | Esc Close"@, ink(Color::DarkGray)),
        ),
        border: ink(Color::Cyan),
    }
}

/// The modal that is open, if it has something of its own to show.
pub open spec fn modal_view(m: EditorModel) -> Option<PaneModel> {
    match m.modal {
        Some(UnifiedTagEditorModalModel::UnsavedChanges { selected_button }) => Some(
            unsaved_view(selected_button),
        ),
        Some(
            UnifiedTagEditorModalModel::MultiValueEditor {
                field_idx,
                values,
                current_value_idx,
                editing,
                edit_buffer,
            },
        ) => Some(values_view(m, field_idx, values, current_value_idx, editing, edit_buffer)),
        _ => None,
    }
}

/// The height of the modal with all values: a row for each and some more, up to
/// a limit.
#[verifier::allow_in_spec]
pub fn values_modal_height(values: usize) -> u16
    returns
        (if values >= 10 {
            15u16
        } else {
            (values + 5) as u16
        }),
{
    if values >= 10 {
        15u16
    } else {
        (values + 5) as u16
    }
}

// ---------------------------------------------------------------------------
// Building
// ---------------------------------------------------------------------------

impl UnifiedTagEditorState {
    /// Builds the info pane of the file in hand. There is none where no file is.
    pub fn info_pane(&self) -> (r: Option<Pane>)
        ensures
            r.deep_view() == (match self@.context.file_at(self@.current_item_idx) {
                Some(f) => Some(info_view(self@, f)),
                None => None,
            }),
    {
        let f: &AudioFile = match self.get_current_audio_file() {
            Some(f) => f,
            None => {
                return None;
            },
        };
        let mut lines: Vec<Line> = nothing();
        put(&mut lines, Line::raw(text::cat2("Path: ", f.path()).as_str()));
        put(
            &mut lines,
            Line::raw(
                facts_label(
                    f.audio.file_type.as_str(),
                    f.entry.file_size,
                    f.audio.duration_ms,
                    f.audio.bitrate_kbps,
                    f.audio.sample_rate,
                ).as_str(),
            ),
        );
        if text::same(text::to_lowercase(f.audio.file_type.as_str()).as_str(), "mp3") {
            put(
                &mut lines,
                Line::one(
                    "Warning: MP3 files use ID3v2.3 tags with limited field support. Some tag writes may fail.",
                    ink(Color::Rgb(255, 140, 0)),
                ),
            );
        }
        let title: String = text::cat5(
            "File Info [",
            text::place(self.current_item_idx).as_str(),
            "/",
            text::count(self.total_items).as_str(),
            "]",
        );
        Some(Pane { title, lines, border: Style::plain() })
    }

    /// Builds the line of a file among others.
    fn file_line(&self, files: &Vec<AudioFile>, idx: usize) -> (r: Line)
        requires
            idx < files.len(),
        ensures
            r.deep_view() == file_line(self@, files.deep_view(), idx as int),
    {
        let current: bool = idx == self.current_item_idx;
        let changed: bool = self.item_has_changes(idx);
        let mark: &str = if current {
            ">> "
        } else if changed {
            "✎ "
        } else {
            "   "
        };
        let style: Style = if current && changed {
            Style::plain().bg(Color::DarkGray).fg(Color::Blue)
        } else if current {
            Style::plain().bg(Color::DarkGray)
        } else if changed {
            ink(Color::Blue)
        } else {
            Style::plain()
        };
        Line::styled(
            text::cat2(mark, paths::name_or(files[idx].path(), "Unknown").as_str()).as_str(),
            style,
        )
    }

    /// Builds the lines of some files in a window.
    fn file_lines(&self, files: &Vec<AudioFile>, from: usize, rows: usize) -> (r: Vec<Line>)
        ensures
            r.deep_view() == window(
                Seq::new(files.deep_view().len(), |i: int| file_line(self@, files.deep_view(), i)),
                from as nat,
                rows as nat,
            ),
    {
        let ghost all = Seq::new(
            files.deep_view().len(),
            |i: int| file_line(self@, files.deep_view(), i),
        );
        let mut lines: Vec<Line> = nothing();
        let mut i: usize = from;
        while i < files.len() && i - from < rows
            invariant
                from <= i,
                i <= files.len() || i == from,
                i - from <= rows,
                all == Seq::new(
                    files.deep_view().len(),
                    |i: int| file_line(self@, files.deep_view(), i),
                ),
                lines.len() == i - from,
                forall|k: int|
                    0 <= k < i - from ==> (#[trigger] lines[k]).deep_view() == all[from + k],
            decreases files.len() - i,
        {
            lines.push(self.file_line(files, i));
            i = i + 1;
        }
        proof {
            assert(lines.deep_view() =~= window(all, from as nat, rows as nat));
        }
        lines
    }

    /// Builds the list of files, and scrolls it to the file in hand.
    pub fn context_list(&mut self, height: u16) -> (r: Pane)
        ensures
            r.deep_view() == (PaneModel {
                title: context_title(old(self)@),
                lines: context_lines(old(self)@, height),
                border: Style::plain(),
            }),
            final(self)@ == context_laid_out(old(self)@, height),
    {
        let title: &str = self.context_title();
        let mut lines: Vec<Line> = nothing();
        if self.is_aggregated_mode() {
            put(
                &mut lines,
                Line::styled(
                    text::cat3(">> ", text::count(self.total_items).as_str(), " tracks").as_str(),
                    Style::plain().bg(Color::DarkGray),
                ),
            );
            put(&mut lines, Line::blank());
            put(&mut lines, Line::styled("(bulk edit)", ink(Color::DarkGray)));
        } else {
            let rows: usize = inner_height(height);
            let mut offset: Option<usize> = None;
            match &self.context {
                TagEditContext::SingleFile { audio_file, group_context, .. } => {
                    put(
                        &mut lines,
                        Line::styled(
                            text::cat2(
                                ">> ",
                                paths::name_or(audio_file.path(), "Unknown").as_str(),
                            ).as_str(),
                            Style::plain().bg(Color::DarkGray),
                        ),
                    );
                    if let Some(g) = group_context {
                        put(&mut lines, Line::blank());
                        put(
                            &mut lines,
                            Line::styled(
                                text::cat4(
                                    "Group ",
                                    text::place(g.group_index).as_str(),
                                    "/",
                                    text::count(g.total_groups).as_str(),
                                ).as_str(),
                                ink(Color::DarkGray),
                            ),
                        );
                    }
                },
                TagEditContext::BulkEdit { audio_files, .. } => {
                    let from: usize = centre(self.current_item_idx, audio_files.len(), rows);
                    put_all(&mut lines, self.file_lines(audio_files, from, rows));
                    proof {
                        assert(Seq::<LineModel>::empty() + context_lines(self@, height)
                            =~= context_lines(self@, height));
                    }
                    offset = Some(from);
                },
            }
            if let Some(from) = offset {
                self.context_list_visible_height = rows;
                self.context_list_scroll_offset = from;
            }
        }
        Pane { title: title.to_owned(), lines, border: Style::plain() }
    }

    /// The title of the list of files.
    fn context_title(&self) -> (r: &'static str)
        ensures
            r@ == context_title(self@),
    {
        if self.is_aggregated_mode() {
            "Selection"
        } else {
            match &self.context {
                TagEditContext::SingleFile { source, .. } => match source {
                    TagEditorSource::TagSearch => "Search Result",
                    _ => "File",
                },
                TagEditContext::BulkEdit { source, .. } => match source {
                    TagEditorSource::DirectoryEdit => "Directory",
                    _ => "Files",
                },
            }
        }
    }

    /// Whether a field of the file in hand is new or changed.
    fn is_modified(&self, f: &TagField) -> (r: bool)
        ensures
            r == is_modified(self@, f.deep_view()),
    {
        if self.current_item_idx >= self.original_tag_fields.len() {
            return true;
        }
        let original: &Vec<TagField> = &self.original_tag_fields[self.current_item_idx];
        let ghost s = original.deep_view();
        let mut i: usize = 0;
        while i < original.len()
            invariant
                i <= original.len(),
                s == original.deep_view(),
                self@.current_item_idx < self@.original_tag_fields.len(),
                s == self@.original_tag_fields[self@.current_item_idx as int],
                forall|j: int|
                    0 <= j < i ==> !(same_but_case((#[trigger] s[j]).name, f.deep_view().name)
                        && s[j].value == f.deep_view().value && !s[j].deleted),
            decreases original.len() - i,
        {
            if text::equal_but_case(original[i].name.as_str(), f.name.as_str())
                && original[i].value == f.value && !original[i].deleted {
                proof {
                    assert(s[i as int].value == f.deep_view().value);
                    assert(was_there(s, f.deep_view()));
                }
                return false;
            }
            i = i + 1;
        }
        true
    }

    /// The text of a name as a line shows it.
    fn shown_name(&self, name: &str, current: bool) -> (r: String)
        ensures
            r@ == (if current && self@.field_edit_state == FieldEditState::EditingName {
                self@.name_buffer + "▌"@
            } else {
                name@
            }),
    {
        if current && self.field_edit_state == FieldEditState::EditingName {
            text::cat2(self.name_buffer.as_str(), "▌")
        } else {
            name.to_owned()
        }
    }

    /// Builds the line of a field.
    fn field_line(&self, fields: &Vec<TagField>, idx: usize) -> (r: Line)
        requires
            idx < fields.len(),
        ensures
            r.deep_view() == field_line(self@, fields.deep_view(), idx as int),
    {
        let f: &TagField = &fields[idx];
        let current: bool = idx == self.current_field_idx;
        let modified: bool = self.is_modified(f);
        let name: String = self.shown_name(f.name.as_str(), current);
        let indicator: &str = if f.deleted {
            "✗ "
        } else if modified {
            "✎ "
        } else {
            "  "
        };
        let low: String = text::to_lowercase(f.name.as_str());
        let (count, first) = values_of(fields, low.as_str());
        let value: String = if current && self.field_edit_state == FieldEditState::EditingValue {
            text::cat2(self.value_buffer.as_str(), "▌")
        } else if count > 1 && first == idx {
            text::cat3("[", text::count(count).as_str(), " values]")
        } else if count > 1 {
            text::cat2("  └ ", f.value.as_str())
        } else {
            f.value.clone()
        };
        let (name_style, value_style) = if current {
            lit_styles(self.focus_on_value)
        } else if f.deleted {
            (ink(Color::Red), ink(Color::Red))
        } else if modified {
            (ink(Color::Yellow), ink(Color::Yellow))
        } else {
            (Style::plain(), Style::plain())
        };
        let mut spans: Vec<Span> = nothing();
        put(
            &mut spans,
            Span::styled(
                text::pad(text::cat2(indicator, name.as_str()).as_str(), 18).as_str(),
                if f.deleted {
                    name_style.crossed_out()
                } else {
                    name_style
                },
            ),
        );
        put(&mut spans, Span::raw(" : "));
        put(
            &mut spans,
            Span::styled(
                value.as_str(),
                if f.deleted {
                    value_style.crossed_out()
                } else {
                    value_style
                },
            ),
        );
        Line::of(spans)
    }

    /// Builds the line of an aggregate.
    fn aggregate_line(&self, f: &AggregatedTagField, idx: usize) -> (r: Line)
        ensures
            r.deep_view() == aggregate_line(self@, f.deep_view(), idx as int),
    {
        let current: bool = idx == self.current_field_idx;
        let modified: bool = !f.value.same(&f.original_value);
        let name: String = self.shown_name(f.name.as_str(), current);
        let indicator: &str = if modified {
            "✎ "
        } else {
            "  "
        };
        let value: String = if current && self.field_edit_state == FieldEditState::EditingValue {
            text::cat2(self.value_buffer.as_str(), "▌")
        } else {
            match &f.value {
                AggregatedValue::Consistent(v) => if v.as_str().is_empty() {
                    "(empty)".to_owned()
                } else {
                    v.clone()
                },
                AggregatedValue::Various => "(various values)".to_owned(),
                AggregatedValue::VariousConfirming => "(press Enter to edit all)".to_owned(),
                AggregatedValue::Edited(v) => text::cat2("→ ", v.as_str()),
            }
        };
        let various: bool = match &f.value {
            AggregatedValue::Various => true,
            _ => false,
        };
        let (name_style, value_style) = if current {
            lit_styles(self.focus_on_value)
        } else if modified {
            (ink(Color::Yellow), ink(Color::Yellow))
        } else if various {
            (Style::plain(), ink(Color::Magenta))
        } else {
            (Style::plain(), Style::plain())
        };
        let mut spans: Vec<Span> = nothing();
        put(
            &mut spans,
            Span::styled(
                text::pad(text::cat2(indicator, name.as_str()).as_str(), 18).as_str(),
                name_style,
            ),
        );
        put(&mut spans, Span::raw(" : "));
        put(&mut spans, Span::styled(value.as_str(), value_style));
        Line::of(spans)
    }

    /// Builds the pane of the fields of the file in hand, or of all files as
    /// one.
    pub fn fields_pane(&mut self, height: u16) -> (r: Option<Pane>)
        ensures
            r.deep_view() == fields_view(old(self)@, height),
            final(self)@ == fields_laid_out(old(self)@, height),
    {
        let rows: usize = inner_height(height);
        let from: usize = self.field_scroll_offset;
        let border: Style = if self.focus == UnifiedTagEditorFocus::TagFields {
            ink(Color::Cyan)
        } else {
            Style::plain()
        };
        let pane: Pane = match &self.aggregated_fields {
            Some(agg) => {
                let ghost all = Seq::new(
                    agg.deep_view().len(),
                    |i: int| aggregate_line(self@, agg.deep_view()[i], i),
                );
                let mut lines: Vec<Line> = nothing();
                let mut i: usize = from;
                while i < agg.len() && i - from < rows
                    invariant
                        from <= i,
                        i <= agg.len() || i == from,
                        i - from <= rows,
                        all == Seq::new(
                            agg.deep_view().len(),
                            |i: int| aggregate_line(self@, agg.deep_view()[i], i),
                        ),
                        lines.len() == i - from,
                        forall|k: int|
                            0 <= k < i - from ==> (#[trigger] lines[k]).deep_view() == all[from
                                + k],
                    decreases agg.len() - i,
                {
                    lines.push(self.aggregate_line(&agg[i], i));
                    i = i + 1;
                }
                proof {
                    assert(lines.deep_view() =~= window(all, from as nat, rows as nat));
                }
                Pane {
                    title: text::cat4(
                        "Directory Tags (",
                        text::count(self.total_items).as_str(),
                        " files)",
                        scroll_indicator(agg.len(), from, rows).as_str(),
                    ),
                    lines,
                    border,
                }
            },
            None => {
                if self.current_item_idx >= self.tag_fields.len() {
                    return None;
                }
                let fields: &Vec<TagField> = &self.tag_fields[self.current_item_idx];
                let ghost all = Seq::new(
                    fields.deep_view().len(),
                    |i: int| field_line(self@, fields.deep_view(), i),
                );
                let mut lines: Vec<Line> = nothing();
                let mut i: usize = from;
                while i < fields.len() && i - from < rows
                    invariant
                        from <= i,
                        i <= fields.len() || i == from,
                        i - from <= rows,
                        all == Seq::new(
                            fields.deep_view().len(),
                            |i: int| field_line(self@, fields.deep_view(), i),
                        ),
                        lines.len() == i - from,
                        forall|k: int|
                            0 <= k < i - from ==> (#[trigger] lines[k]).deep_view() == all[from
                                + k],
                    decreases fields.len() - i,
                {
                    lines.push(self.field_line(fields, i));
                    i = i + 1;
                }
                proof {
                    assert(lines.deep_view() =~= window(all, from as nat, rows as nat));
                }
                Pane {
                    title: text::cat2(
                        "Tag Fields",
                        scroll_indicator(fields.len(), from, rows).as_str(),
                    ),
                    lines,
                    border,
                }
            },
        };
        self.field_visible_height = rows;
        Some(pane)
    }

    /// Builds the line of a button.
    fn button_line(&self, b: TagEditorButton) -> (r: Line)
        ensures
            r.deep_view() == button_line(self@, b),
    {
        let selected: bool = b == self.selected_button;
        let focused: bool = self.focus == UnifiedTagEditorFocus::Actions;
        let words: &str = match b {
            TagEditorButton::ReviewAll => "Review All",
            TagEditorButton::RevertThisFile => "Revert This File",
            TagEditorButton::FillFromDisk => "Fill from Disk",
            TagEditorButton::FillFromDb => "Fill from DB",
        };
        let color: Color = match b {
            TagEditorButton::ReviewAll => if self.staged_decision_count > 0
                || self.has_changes_for_current_item() {
                Color::Green
            } else {
                Color::DarkGray
            },
            TagEditorButton::RevertThisFile => if self.has_changes_for_current_item() {
                Color::Red
            } else {
                Color::DarkGray
            },
            _ => Color::Green,
        };
        let style: Style = if focused && selected {
            ink(Color::Black).bg(color).bold()
        } else if selected {
            ink(color)
        } else {
            ink(Color::DarkGray)
        };
        if selected {
            Line::styled(text::cat3("[ ", words, " ]").as_str(), style)
        } else {
            Line::styled(text::cat3("  ", words, "  ").as_str(), style)
        }
    }

    /// Builds the pane of the buttons.
    pub fn action_panel(&self) -> (r: Pane)
        ensures
            r.deep_view() == actions_view(self@),
    {
        let mut lines: Vec<Line> = nothing();
        put(&mut lines, Line::blank());
        let buttons: Vec<TagEditorButton> = self.available_buttons();
        let mut made: Vec<Line> = nothing();
        let mut i: usize = 0;
        while i < buttons.len()
            invariant
                i <= buttons.len(),
                buttons@ == self@.buttons(),
                made.len() == i,
                forall|k: int|
                    0 <= k < i ==> (#[trigger] made[k]).deep_view() == button_line(
                        self@,
                        buttons@[k],
                    ),
            decreases buttons.len() - i,
        {
            made.push(self.button_line(buttons[i]));
            i = i + 1;
        }
        proof {
            assert(made.deep_view() =~= button_lines(self@, self@.buttons()));
        }
        put_all(&mut lines, made);
        let changes: usize = compute_changes(&self.original_tag_fields, &self.tag_fields).len();
        let ghost above = lines.deep_view();
        put(&mut lines, Line::blank());
        put(
            &mut lines,
            Line::styled(
                text::cat2(text::count(changes).as_str(), " changes").as_str(),
                ink(Color::DarkGray),
            ),
        );
        proof {
            assert(lines.deep_view() =~= actions_view(self@).lines);
        }
        Pane {
            title: "Actions".to_owned(),
            lines,
            border: if self.focus == UnifiedTagEditorFocus::Actions {
                ink(Color::Green)
            } else {
                Style::plain()
            },
        }
    }

    /// Builds the modal with all the values of a tag.
    fn values_pane(
        &self,
        field_idx: usize,
        values: &Vec<String>,
        at: usize,
        editing: bool,
        edit_buffer: &str,
    ) -> (r: Pane)
        ensures
            r.deep_view() == values_view(
                self@,
                field_idx,
                values.deep_view(),
                at,
                editing,
                edit_buffer@,
            ),
    {
        let name: &str = if self.current_item_idx < self.tag_fields.len() && field_idx
            < self.tag_fields[self.current_item_idx].len() {
            self.tag_fields[self.current_item_idx][field_idx].name.as_str()
        } else {
            "Tag"
        };
        let title: String = text::cat2("Edit: ", name);
        let ghost vs = values.deep_view();
        let mut lines: Vec<Line> = nothing();
        let mut i: usize = 0;
        while i < values.len()
            invariant
                i <= values.len(),
                vs == values.deep_view(),
                lines.len() == i,
                forall|k: int|
                    0 <= k < i ==> (#[trigger] lines[k]).deep_view() == value_line(
                        vs[k],
                        k == at,
                        editing,
                        edit_buffer@,
                    ),
            decreases values.len() - i,
        {
            let current: bool = i == at;
            let shown: String = if current && editing {
                text::cat3("  > ", edit_buffer, "▌")
            } else if current {
                text::cat2("  > ", values[i].as_str())
            } else {
                text::cat2("    ", values[i].as_str())
            };
            let style: Style = if current {
                Style::plain().bg(Color::DarkGray).bold()
            } else {
                Style::plain()
            };
            lines.push(Line::styled(shown.as_str(), style));
            i = i + 1;
        }
        proof {
            assert(lines.deep_view() =~= value_lines(vs, at, editing, edit_buffer@));
        }
        let current: bool = at == values.len();
        let shown: String = if current && editing {
            text::cat3("  > + ", edit_buffer, "▌")
        } else if current {
            "  > + Add value".to_owned()
        } else {
            "    + Add value".to_owned()
        };
        let style: Style = if current {
            ink(Color::Green).bg(Color::DarkGray).bold()
        } else {
            ink(Color::Green)
        };
        let mut tail: Vec<Line> = nothing();
        put(&mut tail, Line::styled(shown.as_str(), style));
        put(&mut tail, Line::blank());
        put(
            &mut tail,
            Line::styled(
                "↑↓ Navigate | Enter Edit | Del Remove | Esc Close",
                ink(Color::DarkGray),
            ),
        );
        put_all(&mut lines, tail);
        Pane { title, lines, border: ink(Color::Cyan) }
    }

    /// Builds the open modal.
    pub fn modal_pane(&self) -> (r: Option<Pane>)
        ensures
            r.deep_view() == modal_view(self@),
    {
        match &self.modal {
            Some(UnifiedTagEditorModal::UnsavedChanges { selected_button }) => Some(
                unsaved_changes_pane(*selected_button),
            ),
            Some(
                UnifiedTagEditorModal::MultiValueEditor {
                    field_idx,
                    values,
                    current_value_idx,
                    editing,
                    edit_buffer,
                },
            ) => Some(
                self.values_pane(
                    *field_idx,
                    values,
                    *current_value_idx,
                    *editing,
                    edit_buffer.as_str(),
                ),
            ),
            _ => None,
        }
    }
}

/// The first file of a list that keeps the file in hand in its middle.
fn centre(idx: usize, total: usize, height: usize) -> (r: usize)
    ensures
        r == centred(idx as nat, total as nat, height as nat),
{
    let ideal: usize = if idx < height / 2 {
        0
    } else {
        idx - height / 2
    };
    let last: usize = if total < height {
        0
    } else {
        total - height
    };
    if ideal < last {
        ideal
    } else {
        last
    }
}

/// How many values a tag has, and where its first field stands.
fn values_of(fields: &Vec<TagField>, low: &str) -> (r: (usize, usize))
    ensures
        r.0 == chosen(fields.deep_view(), quiet_tag(low@)).len(),
        r.1 == first_place(fields.deep_view(), 0, quiet(low@)),
{
    let ghost s = fields.deep_view();
    proof {
        lemma_chosen_start(s, quiet_tag(low@));
    }
    let mut n: usize = 0;
    let mut first: usize = fields.len();
    let mut i: usize = 0;
    while i < fields.len()
        invariant
            i <= fields.len(),
            n <= i,
            s == fields.deep_view(),
            n == chosen(s.take(i as int), quiet_tag(low@)).len(),
            first < fields.len() ==> first == first_place(s, 0, quiet(low@)),
            first >= fields.len() ==> first == fields.len() && first_place(s, 0, quiet(low@))
                == first_place(s, i as nat, quiet(low@)),
        decreases fields.len() - i,
    {
        proof {
            lemma_chosen_step(s, i as int, quiet_tag(low@));
        }
        if text::same(text::to_lowercase(fields[i].name.as_str()).as_str(), low) {
            if first == fields.len() {
                first = i;
            }
            if !text::same(fields[i].name.as_str(), "New Tag") {
                n = n + 1;
            }
        }
        i = i + 1;
    }
    proof {
        assert(s.take(s.len() as int) =~= s);
    }
    (n, first)
}

/// The styles of name and value of the line in hand.
fn lit_styles(focus_on_value: bool) -> (r: (Style, Style))
    ensures
        r == lit(focus_on_value),
{
    let dim: Style = Style::plain().bold().bg(Color::DarkGray);
    let bright: Style = Style::plain().bold().bg(Color::Cyan).fg(Color::Black);
    if focus_on_value {
        (dim, bright)
    } else {
        (bright, dim)
    }
}

/// Builds the modal on unsaved changes.
fn unsaved_changes_pane(selected: UnsavedChangesButton) -> (r: Pane)
    ensures
        r.deep_view() == unsaved_view(selected),
{
    let (keep, discard) = match selected {
        UnsavedChangesButton::KeepEditing => (
            ink(Color::Black).bg(Color::Green),
            ink(Color::Red),
        ),
        UnsavedChangesButton::DiscardAndProceed => (
            ink(Color::Green),
            ink(Color::Black).bg(Color::Red),
        ),
    };
    let mut buttons: Vec<Span> = nothing();
    put(&mut buttons, Span::styled(" Keep Editing ", keep));
    put(&mut buttons, Span::raw("    "));
    put(&mut buttons, Span::styled(" Discard ", discard));
    let mut lines: Vec<Line> = nothing();
    put(&mut lines, Line::blank());
    put(&mut lines, Line::raw("You have unsaved changes."));
    put(&mut lines, Line::raw("Discard changes and exit the editor?"));
    put(&mut lines, Line::blank());
    put(&mut lines, Line::of(buttons));
    put(&mut lines, Line::blank());
    put(
        &mut lines,
        Line::one(
            "←/→/Tab to switch  •  Enter to confirm  •  Esc to cancel",
            ink(Color::DarkGray),
        ),
    );
    Pane { title: "Unsaved Changes".to_owned(), lines, border: ink(Color::Yellow) }
}

/// The file in hand is in the list that is shown.
pub proof fn law_file_in_hand_is_listed(idx: nat, total: nat, height: nat)
    requires
        idx < total,
        height > 0,
    ensures
        centred(idx, total, height) <= idx < centred(idx, total, height) + height,
{
}

} // verus!
