//! What the editor shows: its fields, its files, its buttons and its values.

use vstd::prelude::*;

use crate::corpus::AudioFileModel;
use crate::screen::{inner_height, law_window_shows_from_there};
use crate::tag_editor::model::EditorModel;
use crate::tag_editor::mutations::all_changes;
use crate::tag_editor::render::{actions_view, aggregate_line, button_line, centred, context_lines, field_line, fields_view, file_line, info_view, values_view};
use crate::tag_editor::state::{item_label, opened};
use crate::tag_editor::types::{AggregatedTagFieldModel, FieldEditState, GroupContext, TagEditContextModel, TagEditorButton, TagEditorMode, TagEditorSource, TagFieldModel, UnifiedTagEditorFocus};
use crate::text::{decimal, lowercase, minutes_and_seconds, padded, same_but_case, signed_decimal, uppercase};

verus! {

// ---------------------------------------------------------------------------
// Opening and filling
// ---------------------------------------------------------------------------

/// An editor opens at the first field of the first file, with nothing changed.
pub proof fn law_editor_opens_unchanged(
    mode: TagEditorMode,
    files: Seq<AudioFileModel>,
    source: TagEditorSource,
    group_context: Option<GroupContext>,
    fields: Seq<Seq<TagFieldModel>>,
)
    requires
        0 < files.len() <= usize::MAX,
    ensures
        ({
            let m = opened(mode, files, source, group_context, fields);
            &&& m.context.files() == files
            &&& m.total_items == files.len()
            &&& m.mode == mode
            &&& m.tag_fields == fields && m.original_tag_fields == fields
            &&& m.current_item_idx == 0 && m.current_field_idx == 0
            &&& m.field_edit_state == FieldEditState::NonEditable
            &&& m.focus == UnifiedTagEditorFocus::TagFields && m.modal is None
            &&& m.staged_mutations_for_current is None && m.staged_decision_count == 0
            &&& m.launch_mode is Standalone
            &&& m.aggregated_fields is Some <==> mode == TagEditorMode::Aggregated
        }),
{
    let m = opened(mode, files, source, group_context, fields);
    if files.len() == 1 {
        assert(m.context.files() =~= files);
    }
}

/// Tags that are filled in take the place of the fields of the file in hand, and
/// are what it is compared with from there on; no other file changes.
pub proof fn law_filling_replaces_one_file(
    m: EditorModel,
    tags: Seq<(Seq<char>, Seq<char>)>,
    f: TagFieldModel,
)
    requires
        m.current_item_idx < m.tag_fields.len(),
        m.tag_fields.len() == m.original_tag_fields.len(),
        m.current_item_idx < m.context.files().len(),
    ensures
        ({
            let here = m.current_item_idx as int;
            let disk = m.filled_from_disk(Some(tags));
            let db = m.filled_from_db(tags);
            &&& disk.tag_fields[here] == disk.original_tag_fields[here]
            &&& db.tag_fields[here] == db.original_tag_fields[here]
            &&& disk.tag_fields[here].len() == tags.len() + 1 && db.tag_fields[here].len()
                == tags.len() + 1
            &&& disk.tag_fields[here].last().name == "New Tag"@
                && db.tag_fields[here].last().name == "New Tag"@
            &&& disk.tag_fields[here].drop_last().contains(f) <==> f.editable && !f.deleted
                && tags.contains((f.name, f.value))
            &&& db.tag_fields[here].drop_last() == disk.tag_fields[here].drop_last()
            &&& disk.tag_fields.len() == m.tag_fields.len() && db.tag_fields.len()
                == m.tag_fields.len()
            &&& forall|i: int|
                0 <= i < m.tag_fields.len() && i != here ==> #[trigger] disk.tag_fields[i]
                    == m.tag_fields[i]
            &&& forall|i: int|
                0 <= i < m.tag_fields.len() && i != here ==> #[trigger] db.tag_fields[i]
                    == m.tag_fields[i]
            &&& !disk.has_oob_signal && !db.has_oob_signal
            &&& disk.current_field_idx == 0 && db.current_field_idx == 0
        }),
{
    crate::tag_editor::laws::law_tags_become_lines(tags);
    let here = m.current_item_idx as int;
    let db = m.filled_from_db(tags);
    assert(db.tag_fields[here].drop_last()
        =~= crate::tag_editor::mutations::sorted_fields(tags));
}

/// The editor is labelled by the name of its one file, or by that of the directory
/// of its first.
pub proof fn law_label_names_the_subject(context: TagEditContextModel, name: Seq<char>)
    ensures
        context is SingleFile && crate::paths::name_in(context->audio_file.path) == Some(name)
            ==> item_label(context) == name,
        context is BulkEdit && context->audio_files.len() > 0 && crate::paths::name_in(
            crate::paths::folder_in(context->audio_files[0].path),
        ) == Some(name) ==> item_label(context) == name,
{
}

// ---------------------------------------------------------------------------
// Fields
// ---------------------------------------------------------------------------

/// Whether a field is as it was: a line of its name, case aside, had its value and
/// was not marked.
pub open spec fn as_it_was(m: EditorModel, f: TagFieldModel) -> bool {
    m.current_item_idx < m.original_tag_fields.len() && exists|i: int|
        0 <= i < m.original_tag_fields[m.current_item_idx as int].len() && same_but_case(
            (#[trigger] m.original_tag_fields[m.current_item_idx as int][i]).name,
            f.name,
        ) && m.original_tag_fields[m.current_item_idx as int][i].value == f.value
            && !m.original_tag_fields[m.current_item_idx as int][i].deleted
}

/// A field is shown by its name and its value, or by what is typed while it is
/// edited; a cross marks one that goes, a pen one that was changed.
pub proof fn law_field_is_shown(m: EditorModel, fields: Seq<TagFieldModel>, idx: int)
    requires
        0 <= idx < fields.len(),
        m.current_item_idx < m.original_tag_fields.len(),
        forall|j: int|
            0 <= j < fields.len() && j != idx ==> lowercase((#[trigger] fields[j]).name)
                != lowercase(fields[idx].name),
    ensures
        ({
            let l = field_line(m, fields, idx);
            let f = fields[idx];
            let current = idx == m.current_field_idx;
            let naming = current && m.field_edit_state == FieldEditState::EditingName;
            let valuing = current && m.field_edit_state == FieldEditState::EditingValue;
            let name = if naming {
                m.name_buffer + "▌"@
            } else {
                f.name
            };
            &&& l.spans.len() == 3
            &&& f.deleted ==> l.spans[0].text == padded("✗ "@ + name, 18)
            &&& !f.deleted && !as_it_was(m, f) ==> l.spans[0].text == padded("✎ "@ + name, 18)
            &&& !f.deleted && as_it_was(m, f) ==> l.spans[0].text == padded("  "@ + name, 18)
            &&& valuing ==> l.spans[2].text == m.value_buffer + "▌"@
            &&& !valuing ==> l.spans[2].text == f.value
            &&& l.spans[0].style.crossed_out == f.deleted && l.spans[2].style.crossed_out
                == f.deleted
            &&& l.spans[0].style.bg is Some <==> current
            &&& l.spans[2].style.bg is Some <==> current
        }),
{
    let f = fields[idx];
    let low = lowercase(f.name);
    let p = crate::tag_editor::render::quiet_tag(low);
    assert forall|j: int| 0 <= j < fields.len() && j != idx implies !p(#[trigger] fields[j]) by {}
    lemma_at_most_one(fields, p, idx);
    let original = m.original_tag_fields[m.current_item_idx as int];
    if crate::tag_editor::render::was_there(original, f) {
        let i = choose|i: int|
            0 <= i < original.len() && same_but_case((#[trigger] original[i]).name, f.name)
                && original[i].value == f.value && !original[i].deleted;
        assert(same_but_case(
            m.original_tag_fields[m.current_item_idx as int][i].name,
            f.name,
        ));
    }
    if as_it_was(m, f) {
        let i = choose|i: int|
            0 <= i < m.original_tag_fields[m.current_item_idx as int].len() && same_but_case(
                (#[trigger] m.original_tag_fields[m.current_item_idx as int][i]).name,
                f.name,
            ) && m.original_tag_fields[m.current_item_idx as int][i].value == f.value
                && !m.original_tag_fields[m.current_item_idx as int][i].deleted;
        assert(same_but_case(original[i].name, f.name));
    }
}

proof fn lemma_at_most_one(
    s: Seq<TagFieldModel>,
    p: spec_fn(TagFieldModel) -> bool,
    idx: int,
)
    requires
        forall|j: int| 0 <= j < s.len() && j != idx ==> !p(#[trigger] s[j]),
    ensures
        crate::lists::chosen(s, p).len() <= 1,
        !(0 <= idx < s.len()) ==> crate::lists::chosen(s, p).len() == 0,
    decreases s.len(),
{
    if s.len() > 0 {
        assert forall|j: int| 0 <= j < s.drop_last().len() && j != idx implies !p(
            #[trigger] s.drop_last()[j],
        ) by {
            assert(s.drop_last()[j] == s[j]);
        }
        lemma_at_most_one(s.drop_last(), p, idx);
        if idx != s.len() - 1 {
            assert(!p(s[s.len() - 1]));
        }
    }
}

/// A line of many files shows the value in common, or says that there are several,
/// or what it was edited to.
pub proof fn law_line_of_many_is_shown(m: EditorModel, f: AggregatedTagFieldModel, idx: int)
    ensures
        ({
            let l = aggregate_line(m, f, idx);
            let current = idx == m.current_field_idx;
            let valuing = current && m.field_edit_state == FieldEditState::EditingValue;
            &&& valuing ==> l.spans[2].text == m.value_buffer + "▌"@
            &&& !valuing && f.value is Consistent && f.value->Consistent_0.len() > 0
                ==> l.spans[2].text == f.value->Consistent_0
            &&& !valuing && f.value is Consistent && f.value->Consistent_0.len() == 0
                ==> l.spans[2].text == "(empty)"@
            &&& !valuing && f.value is Various ==> l.spans[2].text == "(various values)"@
            &&& !valuing && f.value is VariousConfirming ==> l.spans[2].text
                == "(press Enter to edit all)"@
            &&& !valuing && f.value is Edited ==> l.spans[2].text == "→ "@ + f.value->Edited_0
            &&& l.spans[2].style.bg is Some <==> current
            &&& !(current && m.field_edit_state == FieldEditState::EditingName) && f.value
                != f.original_value ==> l.spans[0].text == padded("✎ "@ + f.name, 18)
            &&& !(current && m.field_edit_state == FieldEditState::EditingName) && f.value
                == f.original_value ==> l.spans[0].text == padded("  "@ + f.name, 18)
        }),
{
}

/// The pane of the fields shows them in turn, from where it is scrolled to.
pub proof fn law_fields_are_shown_in_turn(m: EditorModel, height: u16, i: int)
    requires
        m.aggregated_fields is None,
        m.current_item_idx < m.tag_fields.len(),
        0 <= i < inner_height(height),
        m.field_scroll_offset + i < m.tag_fields[m.current_item_idx as int].len(),
    ensures
        fields_view(m, height) is Some,
        i < fields_view(m, height)->0.lines.len(),
        fields_view(m, height)->0.lines[i] == field_line(
            m,
            m.tag_fields[m.current_item_idx as int],
            m.field_scroll_offset + i,
        ),
{
    let fields = m.tag_fields[m.current_item_idx as int];
    law_window_shows_from_there(
        Seq::new(fields.len(), |k: int| field_line(m, fields, k)),
        m.field_scroll_offset as nat,
        inner_height(height) as nat,
    );
}

// ---------------------------------------------------------------------------
// Files
// ---------------------------------------------------------------------------

/// A file is listed by its name; the one in hand is pointed at, and one whose
/// fields were changed has a pen or is blue.
pub proof fn law_file_is_listed(m: EditorModel, files: Seq<AudioFileModel>, idx: int)
    requires
        0 <= idx < files.len(),
        files.len() == m.tag_fields.len(),
        files.len() == m.original_tag_fields.len(),
    ensures
        ({
            let l = file_line(m, files, idx);
            let current = idx == m.current_item_idx;
            let changed = m.tag_fields[idx] != m.original_tag_fields[idx];
            let name = if crate::paths::name_in(files[idx].path) is Some {
                crate::paths::name_in(files[idx].path)->0
            } else {
                "Unknown"@
            };
            &&& current ==> l.spans[0].text == ">> "@ + name
            &&& !current && changed ==> l.spans[0].text == "✎ "@ + name
            &&& !current && !changed ==> l.spans[0].text == "   "@ + name
            &&& l.style.bg is Some <==> current
            &&& l.style.fg is Some <==> changed
        }),
{
}

/// The file in hand is among those that are listed.
pub proof fn law_file_in_hand_is_pointed_at(m: EditorModel, height: u16)
    requires
        m.mode == TagEditorMode::Individual,
        m.context is BulkEdit,
        m.current_item_idx < m.context->audio_files.len(),
        height > 2,
    ensures
        exists|i: int|
            0 <= i < context_lines(m, height).len() && #[trigger] context_lines(m, height)[i]
                == file_line(m, m.context->audio_files, m.current_item_idx as int),
{
    let files = m.context->audio_files;
    let rows = inner_height(height) as nat;
    let all = Seq::new(files.len(), |i: int| file_line(m, files, i));
    let from = centred(m.current_item_idx as nat, files.len(), rows);
    crate::tag_editor::render::law_file_in_hand_is_listed(
        m.current_item_idx as nat,
        files.len(),
        rows,
    );
    law_window_shows_from_there(all, from, rows);
    let i = m.current_item_idx - from;
    assert(context_lines(m, height)[i] == all[from + i]);
}

/// The facts of a file are its own: format, size, length and rates, or that they
/// are not known.
pub proof fn law_facts_are_of_the_file(m: EditorModel, f: AudioFileModel)
    ensures
        ({
            let v = info_view(m, f);
            let length = if f.duration_ms is Some {
                minutes_and_seconds(f.duration_ms->0 as int)
            } else {
                "Unknown"@
            };
            let rate = if f.bitrate_kbps is Some {
                signed_decimal(f.bitrate_kbps->0 as int) + " kbps"@
            } else {
                "Unknown"@
            };
            let samples = if f.sample_rate is Some {
                signed_decimal(f.sample_rate->0 as int) + " Hz"@
            } else {
                "Unknown"@
            };
            &&& v.title == "File Info ["@ + decimal((m.current_item_idx + 1) as nat) + "/"@
                + decimal(m.total_items as nat) + "]"@
            &&& v.lines[0].spans[0].text == "Path: "@ + f.path
            &&& v.lines[1].spans[0].text == "Format: "@ + uppercase(f.file_type) + " | Size: "@
                + crate::file_size::size_text(f.file_size as int) + " | Duration: "@ + length
                + " | Bitrate: "@ + rate + " | Sample Rate: "@ + samples
            &&& v.lines.len() == 3 <==> lowercase(f.file_type) == "mp3"@
        }),
{
}

// ---------------------------------------------------------------------------
// Buttons and values
// ---------------------------------------------------------------------------

/// The buttons are shown in turn, the chosen one in brackets; below them stands how
/// many changes there are.
pub proof fn law_buttons_are_shown(m: EditorModel, b: TagEditorButton)
    ensures
        ({
            let l = button_line(m, b);
            let words = match b {
                TagEditorButton::ReviewAll => "Review All"@,
                TagEditorButton::RevertThisFile => "Revert This File"@,
                TagEditorButton::FillFromDisk => "Fill from Disk"@,
                TagEditorButton::FillFromDb => "Fill from DB"@,
            };
            &&& b == m.selected_button ==> l.spans[0].text == "[ "@ + words + " ]"@
            &&& b != m.selected_button ==> l.spans[0].text == "  "@ + words + "  "@
            &&& l.style.bg is Some <==> b == m.selected_button && m.focus
                == UnifiedTagEditorFocus::Actions
        }),
        actions_view(m).lines.len() == m.buttons().len() + 3,
        forall|i: int|
            0 <= i < m.buttons().len() ==> #[trigger] actions_view(m).lines[i + 1] == button_line(
                m,
                m.buttons()[i],
            ),
        actions_view(m).lines.last().spans[0].text == decimal(
            all_changes(m.original_tag_fields, m.tag_fields).len(),
        ) + " changes"@,
{
}

/// The values of a tag are shown in turn, the one in hand pointed at or as it is
/// typed, and behind them the entry that adds one.
pub proof fn law_values_are_shown(
    m: EditorModel,
    field_idx: usize,
    values: Seq<Seq<char>>,
    at: usize,
    editing: bool,
    edit_buffer: Seq<char>,
    i: int,
)
    requires
        0 <= i < values.len(),
    ensures
        ({
            let lines = values_view(m, field_idx, values, at, editing, edit_buffer).lines;
            &&& lines.len() == values.len() + 3
            &&& i != at ==> lines[i].spans[0].text == "    "@ + values[i]
            &&& i == at && !editing ==> lines[i].spans[0].text == "  > "@ + values[i]
            &&& i == at && editing ==> lines[i].spans[0].text == "  > "@ + edit_buffer + "▌"@
            &&& lines[i].style.bg is Some <==> i == at
            &&& lines[values.len() as int].style.bg is Some <==> at == values.len()
        }),
{
}

} // verus!
