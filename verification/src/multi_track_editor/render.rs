//! What the editor of several tracks shows.

use vstd::prelude::*;

use crate::corpus::Track;
use crate::lists::total;
use crate::multi_track_editor::fields::{FieldEditState, FieldModel, GroupedChange, GroupedChangeModel, TagChange, TagChangeModel, TagField};
use crate::multi_track_editor::state::{TagEditorState, TrackEditorModel};
use crate::screen::{blank, ink, line, list10, list2, list3, nothing, put, put_all, visible, window, Color, Line, LineModel, Pane, PaneModel, Style};
use crate::tag_editor::directory_render::held_offset;
use crate::tag_editor::render::{facts_label, facts_text};
use crate::text::{self, decimal, padded, separated, signed_decimal};

verus! {

// ---------------------------------------------------------------------------
// Panes
// ---------------------------------------------------------------------------

/// The info pane on the track in hand.
pub open spec fn track_info_view(m: TrackEditorModel) -> PaneModel {
    let t = m.tracks[m.current_track_idx as int];
    PaneModel {
        title: "File Info [Track "@ + decimal((m.current_track_idx + 1) as nat) + "/"@ + decimal(
            m.tracks.len(),
        ) + "]"@,
        lines: list3(
            line("Path: "@ + t.path, Style::plain()),
            line(
                facts_text(t.file_type, t.file_size, t.duration_ms, t.bitrate_kbps, t.sample_rate),
                Style::plain(),
            ),
            line(
                "Source: "@ + t.source + " | Inode: "@ + signed_decimal(t.inode as int),
                Style::plain(),
            ),
        ),
        border: Style::plain(),
    }
}

/// A text, or that it is unknown.
pub open spec fn known(s: Option<Seq<char>>) -> Seq<char> {
    match s {
        Some(t) => t,
        None => "Unknown"@,
    }
}

/// The line of a track.
pub open spec fn track_row(m: TrackEditorModel, i: int) -> LineModel {
    let current = i == m.current_track_idx;
    line(
        (if current {
            ">> "@
        } else {
            "   "@
        }) + known(m.tracks[i].artist) + " - "@ + known(m.tracks[i].title),
        if current {
            Style::plain().bg(Color::DarkGray)
        } else {
            Style::plain()
        },
    )
}

/// The lines of the tracks.
pub open spec fn track_rows(m: TrackEditorModel) -> Seq<LineModel> {
    Seq::new(m.tracks.len(), |i: int| track_row(m, i))
}

/// The line of a field. Where its value can be filled into all tracks, it says
/// by which key.
pub open spec fn tag_row(m: TrackEditorModel, f: FieldModel, i: int) -> LineModel {
    let current = i == m.current_field_idx;
    let name = if current && m.field_edit_state == FieldEditState::EditingName {
        m.name_buffer + "_"@
    } else {
        f.name
    };
    let value = if current && m.field_edit_state == FieldEditState::EditingValue {
        m.value_buffer + "_"@
    } else {
        f.value
    };
    let fill = if current && f.editable && !f.is_unique_per_track && f.value.len() != 0 {
        " [F]"@
    } else {
        ""@
    };
    line(
        padded(name, 18) + " : "@ + value + fill,
        if current {
            Style::plain().bg(Color::DarkGray).bold()
        } else {
            Style::plain()
        },
    )
}

/// The lines of the fields of the track in hand.
pub open spec fn tag_rows(m: TrackEditorModel) -> Seq<LineModel> {
    let fields = m.tag_fields[m.current_track_idx as int];
    Seq::new(fields.len(), |i: int| tag_row(m, fields[i], i))
}

/// The lines at the bottom: a message, and the keys.
pub open spec fn status_lines(message: Option<Seq<char>>) -> Seq<LineModel> {
    (match message {
        Some(s) => list2(line(s, ink(Color::Yellow)), blank()),
        None => Seq::empty(),
    }) + list3(
        line(
            "Navigation: Tab/Shift+Tab = next/prev track | Left/Right = toggle name/value | Up/Down = navigate fields | Enter = edit/commit"@,
            Style::plain(),
        ),
        blank(),
        line(
            "Actions: F = fill to all | Ctrl+U = clear | Esc = exit | Tab past last track to save all"@,
            Style::plain(),
        ),
    )
}

// ---------------------------------------------------------------------------
// Modals
// ---------------------------------------------------------------------------

/// The style of a button.
pub open spec fn choice_style(selected: bool) -> Style {
    if selected {
        Style::plain().bg(Color::Cyan).fg(Color::Black).bold()
    } else {
        ink(Color::White)
    }
}

/// The question whether to save.
pub open spec fn save_view(selected: usize) -> PaneModel {
    PaneModel {
        title: "Save Changes?"@,
        lines: list10(
            blank(),
            line("All edits will be written to files."@, Style::plain()),
            blank(),
            line("[ Save All Changes ]"@, choice_style(selected == 0)),
            blank(),
            line("[ Save All & Next Set ]"@, choice_style(selected == 1)),
            blank(),
            line("[ Return to Editing ]"@, choice_style(selected == 2)),
            blank(),
            line(
                "Use Left/Right to select, Enter to confirm, Esc to cancel"@,
                ink(Color::DarkGray),
            ),
        ),
        border: ink(Color::Yellow),
    }
}

/// A value, or that it is empty.
pub open spec fn or_empty(s: Seq<char>) -> Seq<char> {
    if s.len() == 0 {
        "(empty)"@
    } else {
        s
    }
}

/// The number of a track as people count.
pub open spec fn track_number() -> spec_fn(usize) -> Seq<char> {
    |i: usize| decimal((i + 1) as nat)
}

/// The tracks of a shared change: up to five by number, else how many.
pub open spec fn tracks_text(tracks: Seq<usize>) -> Seq<char> {
    if tracks.len() <= 5 {
        separated(tracks.map_values(track_number()), ", "@)
    } else {
        decimal(tracks.len()) + " tracks"@
    }
}

/// The line of a shared change.
pub open spec fn group_row() -> spec_fn(GroupedChangeModel) -> LineModel {
    |g: GroupedChangeModel|
        line(
            "  ["@ + tracks_text(g.track_indices) + "] "@ + g.field_name + ": '"@ + or_empty(
                g.old_value,
            ) + "' -> '"@ + or_empty(g.new_value) + "'"@,
            ink(Color::Cyan),
        )
}

/// The line of a change of one track.
pub open spec fn single_row() -> spec_fn(TagChangeModel) -> LineModel {
    |c: TagChangeModel|
        line(
            "  Track "@ + decimal((c.track_idx + 1) as nat) + ": "@ + c.field_name + ": '"@
                + or_empty(c.old_value) + "' -> '"@ + or_empty(c.new_value) + "'"@,
            ink(Color::White),
        )
}

/// How many tracks a shared change touches.
pub open spec fn group_size() -> spec_fn(GroupedChangeModel) -> nat {
    |g: GroupedChangeModel| g.track_indices.len()
}

/// How many changes there are in all, a shared one counted for each track.
pub open spec fn change_count(
    grouped: Seq<GroupedChangeModel>,
    single: Seq<TagChangeModel>,
) -> nat {
    total(grouped.map_values(group_size())) + single.len()
}

/// The part of the preview on shared changes.
pub open spec fn shared_part(grouped: Seq<GroupedChangeModel>) -> Seq<LineModel> {
    if grouped.len() == 0 {
        Seq::empty()
    } else {
        (list2(
            line(
                "Common Changes (multiple tracks):"@,
                Style::plain().bold().fg(Color::Green),
            ),
            blank(),
        ) + grouped.map_values(group_row())).push(blank())
    }
}

/// The part of the preview on the changes of single tracks.
pub open spec fn single_part(single: Seq<TagChangeModel>) -> Seq<LineModel> {
    if single.len() == 0 {
        Seq::empty()
    } else {
        (list2(
            line("Individual Track Changes:"@, Style::plain().bold().fg(Color::Yellow)),
            blank(),
        ) + single.map_values(single_row())).push(blank())
    }
}

/// All the lines of the preview.
pub open spec fn change_lines(
    grouped: Seq<GroupedChangeModel>,
    single: Seq<TagChangeModel>,
) -> Seq<LineModel> {
    list2(
        line(
            "Total changes: "@ + decimal(change_count(grouped, single)),
            Style::plain().bold().fg(Color::Cyan),
        ),
        blank(),
    ) + shared_part(grouped) + single_part(single) + list3(
        blank(),
        line("Press Enter/Y to confirm and save, Esc/N to cancel"@, ink(Color::DarkGray)),
        line("Use Up/Down or PgUp/PgDn to scroll"@, ink(Color::DarkGray)),
    )
}

/// The preview in a window.
pub open spec fn change_preview_view(
    grouped: Seq<GroupedChangeModel>,
    single: Seq<TagChangeModel>,
    offset: usize,
    height: usize,
) -> Seq<LineModel> {
    let all = change_lines(grouped, single);
    window(all, held_offset(offset, all.len() as usize, height) as nat, height as nat)
}

// ---------------------------------------------------------------------------
// Building
// ---------------------------------------------------------------------------

/// A text, or that it is unknown.
fn known_text(s: &Option<String>) -> (r: &str)
    ensures
        r@ == known(s.deep_view()),
{
    match s {
        Some(t) => t.as_str(),
        None => "Unknown",
    }
}

impl TagEditorState {
    /// Builds the info pane on the track in hand.
    pub fn info_pane(&self) -> (r: Pane)
        requires
            self@.current_track_idx < self@.tracks.len(),
        ensures
            r.deep_view() == track_info_view(self@),
    {
        let t: &Track = &self.tracks[self.current_track_idx];
        let mut lines: Vec<Line> = nothing();
        put(&mut lines, Line::raw(text::cat2("Path: ", t.path.as_str()).as_str()));
        put(
            &mut lines,
            Line::raw(
                facts_label(
                    t.file_type.as_str(),
                    t.file_size,
                    t.duration_ms,
                    t.bitrate_kbps,
                    t.sample_rate,
                ).as_str(),
            ),
        );
        put(
            &mut lines,
            Line::raw(
                text::cat4(
                    "Source: ",
                    t.source.as_str(),
                    " | Inode: ",
                    text::signed(t.inode).as_str(),
                ).as_str(),
            ),
        );
        Pane {
            title: text::cat5(
                "File Info [Track ",
                text::place(self.current_track_idx).as_str(),
                "/",
                text::count(self.tracks.len()).as_str(),
                "]",
            ),
            lines,
            border: Style::plain(),
        }
    }

    /// Builds the lines of the tracks.
    pub fn track_list(&self) -> (r: Vec<Line>)
        ensures
            r.deep_view() == track_rows(self@),
    {
        let mut lines: Vec<Line> = nothing();
        let mut i: usize = 0;
        while i < self.tracks.len()
            invariant
                i <= self.tracks.len(),
                lines.len() == i,
                forall|k: int|
                    0 <= k < i ==> (#[trigger] lines[k]).deep_view() == track_row(self@, k),
            decreases self.tracks.len() - i,
        {
            let current: bool = i == self.current_track_idx;
            let mark: &str = if current {
                ">> "
            } else {
                "   "
            };
            let style: Style = if current {
                Style::plain().bg(Color::DarkGray)
            } else {
                Style::plain()
            };
            let words: String = text::cat4(
                mark,
                known_text(&self.tracks[i].artist),
                " - ",
                known_text(&self.tracks[i].title),
            );
            lines.push(Line::styled(words.as_str(), style));
            i = i + 1;
        }
        proof {
            assert(lines.deep_view() =~= track_rows(self@));
        }
        lines
    }

    /// Builds the line of a field.
    fn tag_row(&self, f: &TagField, i: usize) -> (r: Line)
        ensures
            r.deep_view() == tag_row(self@, f.deep_view(), i as int),
    {
        let current: bool = i == self.current_field_idx;
        let name: String = if current && self.field_edit_state == FieldEditState::EditingName {
            text::cat2(self.name_buffer.as_str(), "_")
        } else {
            f.name.clone()
        };
        let value: String = if current && self.field_edit_state == FieldEditState::EditingValue {
            text::cat2(self.value_buffer.as_str(), "_")
        } else {
            f.value.clone()
        };
        let fill: &str = if current && f.editable && !f.is_unique_per_track
            && !f.value.as_str().is_empty() {
            " [F]"
        } else {
            ""
        };
        let style: Style = if current {
            Style::plain().bg(Color::DarkGray).bold()
        } else {
            Style::plain()
        };
        Line::styled(
            text::cat4(
                text::pad(name.as_str(), 18).as_str(),
                " : ",
                value.as_str(),
                fill,
            ).as_str(),
            style,
        )
    }

    /// Builds the lines of the fields of the track in hand.
    pub fn tag_fields_list(&self) -> (r: Vec<Line>)
        requires
            self@.current_track_idx < self@.tag_fields.len(),
        ensures
            r.deep_view() == tag_rows(self@),
    {
        let fields: &Vec<TagField> = &self.tag_fields[self.current_track_idx];
        let ghost s = fields.deep_view();
        let mut lines: Vec<Line> = nothing();
        let mut i: usize = 0;
        while i < fields.len()
            invariant
                i <= fields.len(),
                s == fields.deep_view(),
                lines.len() == i,
                forall|k: int|
                    0 <= k < i ==> (#[trigger] lines[k]).deep_view() == tag_row(self@, s[k], k),
            decreases fields.len() - i,
        {
            lines.push(self.tag_row(&fields[i], i));
            i = i + 1;
        }
        proof {
            assert(lines.deep_view() =~= tag_rows(self@));
        }
        lines
    }

    /// Builds the lines at the bottom.
    pub fn status_box(&self, message: Option<String>) -> (r: Vec<Line>)
        ensures
            r.deep_view() == status_lines(message.deep_view()),
    {
        let mut lines: Vec<Line> = nothing();
        if let Some(s) = message {
            put(&mut lines, Line::styled(s.as_str(), ink(Color::Yellow)));
            put(&mut lines, Line::blank());
        }
        let mut keys: Vec<Line> = nothing();
        put(
            &mut keys,
            Line::raw(
                "Navigation: Tab/Shift+Tab = next/prev track | Left/Right = toggle name/value | Up/Down = navigate fields | Enter = edit/commit",
            ),
        );
        put(&mut keys, Line::blank());
        put(
            &mut keys,
            Line::raw(
                "Actions: F = fill to all | Ctrl+U = clear | Esc = exit | Tab past last track to save all",
            ),
        );
        put_all(&mut lines, keys);
        lines
    }
}

/// The style of a button.
fn choice(selected: bool) -> (r: Style)
    ensures
        r == choice_style(selected),
{
    if selected {
        Style::plain().bg(Color::Cyan).fg(Color::Black).bold()
    } else {
        ink(Color::White)
    }
}

/// Builds the question whether to save.
pub fn save_confirmation_modal(selected_button: usize) -> (r: Pane)
    ensures
        r.deep_view() == save_view(selected_button),
{
    let mut lines: Vec<Line> = nothing();
    put(&mut lines, Line::blank());
    put(&mut lines, Line::raw("All edits will be written to files."));
    put(&mut lines, Line::blank());
    put(&mut lines, Line::styled("[ Save All Changes ]", choice(selected_button == 0)));
    put(&mut lines, Line::blank());
    put(&mut lines, Line::styled("[ Save All & Next Set ]", choice(selected_button == 1)));
    put(&mut lines, Line::blank());
    put(&mut lines, Line::styled("[ Return to Editing ]", choice(selected_button == 2)));
    put(&mut lines, Line::blank());
    put(
        &mut lines,
        Line::styled(
            "Use Left/Right to select, Enter to confirm, Esc to cancel",
            ink(Color::DarkGray),
        ),
    );
    Pane { title: "Save Changes?".to_owned(), lines, border: ink(Color::Yellow) }
}

/// A value, or that it is empty.
fn shown_value(s: &String) -> (r: &str)
    ensures
        r@ == or_empty(s@),
{
    if s.as_str().is_empty() {
        "(empty)"
    } else {
        s.as_str()
    }
}

/// The tracks of a shared change.
fn tracks_label(tracks: &Vec<usize>) -> (r: String)
    ensures
        r@ == tracks_text(tracks@),
{
    if tracks.len() <= 5 {
        let mut numbers: Vec<String> = Vec::new();
        let mut i: usize = 0;
        while i < tracks.len()
            invariant
                i <= tracks.len(),
                numbers.len() == i,
                forall|k: int|
                    0 <= k < i ==> (#[trigger] numbers[k])@ == track_number()(tracks@[k]),
            decreases tracks.len() - i,
        {
            numbers.push(text::place(tracks[i]));
            i = i + 1;
        }
        proof {
            assert(numbers.deep_view() =~= tracks@.map_values(track_number()));
        }
        text::join(&numbers, ", ")
    } else {
        text::cat2(text::count(tracks.len()).as_str(), " tracks")
    }
}

/// How many changes there are in all.
fn count_changes(grouped: &Vec<GroupedChange>, single: &Vec<TagChange>) -> (r: u128)
    ensures
        r == change_count(grouped.deep_view(), single.deep_view()),
{
    let ghost sizes = grouped.deep_view().map_values(group_size());
    let mut n: u128 = 0;
    proof {
        assert(sizes.take(0) =~= Seq::<nat>::empty());
    }
    let mut i: usize = 0;
    while i < grouped.len()
        invariant
            i <= grouped.len(),
            sizes == grouped.deep_view().map_values(group_size()),
            n == total(sizes.take(i as int)),
            n <= i * 0xffff_ffff_ffff_ffff,
        decreases grouped.len() - i,
    {
        proof {
            assert(sizes.take(i as int + 1).drop_last() =~= sizes.take(i as int));
            assert(sizes[i as int] == grouped[i as int].track_indices.len());
            assert(n <= 0xffff_ffff_ffff_fffe * 0xffff_ffff_ffff_ffff) by (nonlinear_arith)
                requires
                    n <= i * 0xffff_ffff_ffff_ffff,
                    i <= 0xffff_ffff_ffff_fffe,
            ;
            assert((i + 1) * 0xffff_ffff_ffff_ffff == i * 0xffff_ffff_ffff_ffff
                + 0xffff_ffff_ffff_ffff) by (nonlinear_arith);
        }
        n = n + grouped[i].track_indices.len() as u128;
        i = i + 1;
    }
    proof {
        assert(sizes.take(sizes.len() as int) =~= sizes);
        assert(n <= 0xffff_ffff_ffff_ffff * 0xffff_ffff_ffff_ffff) by (nonlinear_arith)
            requires
                n <= i * 0xffff_ffff_ffff_ffff,
                i <= 0xffff_ffff_ffff_ffff,
        ;
    }
    n + single.len() as u128
}

/// Builds the part of the preview on shared changes.
fn shared_lines(grouped: &Vec<GroupedChange>) -> (r: Vec<Line>)
    ensures
        r.deep_view() == shared_part(grouped.deep_view()),
{
    let mut lines: Vec<Line> = nothing();
    if grouped.len() == 0 {
        return lines;
    }
    put(
        &mut lines,
        Line::styled(
            "Common Changes (multiple tracks):",
            Style::plain().bold().fg(Color::Green),
        ),
    );
    put(&mut lines, Line::blank());
    let ghost gs = grouped.deep_view();
    let mut rows: Vec<Line> = nothing();
    let mut i: usize = 0;
    while i < grouped.len()
        invariant
            i <= grouped.len(),
            gs == grouped.deep_view(),
            rows.len() == i,
            forall|k: int| 0 <= k < i ==> (#[trigger] rows[k]).deep_view() == group_row()(gs[k]),
        decreases grouped.len() - i,
    {
        let g: &GroupedChange = &grouped[i];
        let mut s: String = text::cat5(
            "  [",
            tracks_label(&g.track_indices).as_str(),
            "] ",
            g.field_name.as_str(),
            ": '",
        );
        s.append(shown_value(&g.old_value));
        s.append("' -> '");
        s.append(shown_value(&g.new_value));
        s.append("'");
        rows.push(Line::styled(s.as_str(), ink(Color::Cyan)));
        i = i + 1;
    }
    proof {
        assert(rows.deep_view() =~= gs.map_values(group_row()));
    }
    put_all(&mut lines, rows);
    put(&mut lines, Line::blank());
    lines
}

/// Builds the part of the preview on the changes of single tracks.
fn single_lines(single: &Vec<TagChange>) -> (r: Vec<Line>)
    ensures
        r.deep_view() == single_part(single.deep_view()),
{
    let mut lines: Vec<Line> = nothing();
    if single.len() == 0 {
        return lines;
    }
    put(
        &mut lines,
        Line::styled("Individual Track Changes:", Style::plain().bold().fg(Color::Yellow)),
    );
    put(&mut lines, Line::blank());
    let ghost cs = single.deep_view();
    let mut rows: Vec<Line> = nothing();
    let mut i: usize = 0;
    while i < single.len()
        invariant
            i <= single.len(),
            cs == single.deep_view(),
            rows.len() == i,
            forall|k: int| 0 <= k < i ==> (#[trigger] rows[k]).deep_view() == single_row()(cs[k]),
        decreases single.len() - i,
    {
        let c: &TagChange = &single[i];
        let mut s: String = text::cat5(
            "  Track ",
            text::place(c.track_idx).as_str(),
            ": ",
            c.field_name.as_str(),
            ": '",
        );
        s.append(shown_value(&c.old_value));
        s.append("' -> '");
        s.append(shown_value(&c.new_value));
        s.append("'");
        rows.push(Line::styled(s.as_str(), ink(Color::White)));
        i = i + 1;
    }
    proof {
        assert(rows.deep_view() =~= cs.map_values(single_row()));
    }
    put_all(&mut lines, rows);
    put(&mut lines, Line::blank());
    lines
}

/// Builds the preview in a window.
pub fn change_preview_modal(
    grouped_changes: &Vec<GroupedChange>,
    single_changes: &Vec<TagChange>,
    scroll_offset: usize,
    height: usize,
) -> (r: Vec<Line>)
    ensures
        r.deep_view() == change_preview_view(
            grouped_changes.deep_view(),
            single_changes.deep_view(),
            scroll_offset,
            height,
        ),
{
    let n: u128 = count_changes(grouped_changes, single_changes);
    let mut lines: Vec<Line> = nothing();
    put(
        &mut lines,
        Line::styled(
            text::cat2("Total changes: ", text::dec(n).as_str()).as_str(),
            Style::plain().bold().fg(Color::Cyan),
        ),
    );
    put(&mut lines, Line::blank());
    put_all(&mut lines, shared_lines(grouped_changes));
    put_all(&mut lines, single_lines(single_changes));
    let mut keys: Vec<Line> = nothing();
    put(&mut keys, Line::blank());
    put(
        &mut keys,
        Line::styled(
            "Press Enter/Y to confirm and save, Esc/N to cancel",
            ink(Color::DarkGray),
        ),
    );
    put(
        &mut keys,
        Line::styled("Use Up/Down or PgUp/PgDn to scroll", ink(Color::DarkGray)),
    );
    put_all(&mut lines, keys);
    let from: usize = held_offset(scroll_offset, lines.len(), height);
    visible(lines, from, height)
}

/// Each track has a line with its artist and title, and the one in hand is pointed
/// at.
pub proof fn law_track_lines(m: TrackEditorModel, i: int)
    requires
        0 <= i < m.tracks.len(),
    ensures
        ({
            let t = m.tracks[i];
            let artist = if t.artist is Some {
                t.artist->0
            } else {
                "Unknown"@
            };
            let title = if t.title is Some {
                t.title->0
            } else {
                "Unknown"@
            };
            let mark = if i == m.current_track_idx {
                ">> "@
            } else {
                "   "@
            };
            &&& track_rows(m).len() == m.tracks.len()
            &&& track_rows(m)[i].spans[0].text == mark + artist + " - "@ + title
            &&& track_rows(m)[i].style.bg is Some <==> i == m.current_track_idx
        }),
{
}

/// Each field has a line with its name and value, or what is typed; the one in hand
/// is lit, and says where it can be filled into all tracks.
pub proof fn law_tag_lines(m: TrackEditorModel, i: int)
    requires
        m.current_track_idx < m.tag_fields.len(),
        0 <= i < m.tag_fields[m.current_track_idx as int].len(),
    ensures
        ({
            let f = m.tag_fields[m.current_track_idx as int][i];
            let l = tag_rows(m)[i];
            let current = i == m.current_field_idx;
            let fills = f.editable && !f.is_unique_per_track && f.value.len() > 0;
            let browsing = m.field_edit_state == FieldEditState::NonEditable;
            &&& tag_rows(m).len() == m.tag_fields[m.current_track_idx as int].len()
            &&& !current ==> l.spans[0].text == padded(f.name, 18) + " : "@ + f.value + ""@
            &&& current && browsing && fills ==> l.spans[0].text == padded(f.name, 18) + " : "@
                + f.value + " [F]"@
            &&& current && browsing && !fills ==> l.spans[0].text == padded(f.name, 18) + " : "@
                + f.value + ""@
            &&& current && m.field_edit_state == FieldEditState::EditingValue && !fills
                ==> l.spans[0].text == padded(f.name, 18) + " : "@ + (m.value_buffer + "_"@) + ""@
            &&& current && m.field_edit_state == FieldEditState::EditingName && !fills
                ==> l.spans[0].text == padded(m.name_buffer + "_"@, 18) + " : "@ + f.value + ""@
            &&& l.style.bg is Some <==> current
        }),
{
}

/// The total counts a change once for each track that it is made to.
pub proof fn law_total_counts_each_track(
    grouped: Seq<GroupedChangeModel>,
    g: GroupedChangeModel,
    single: Seq<TagChangeModel>,
)
    ensures
        change_count(grouped.push(g), single) == change_count(grouped, single)
            + g.track_indices.len(),
        change_count(Seq::empty(), single) == single.len(),
        change_lines(grouped, single)[0].spans[0].text == "Total changes: "@ + decimal(
            change_count(grouped, single),
        ),
{
    let sizes = grouped.push(g).map_values(group_size());
    assert(sizes.drop_last() =~= grouped.map_values(group_size()));
    assert(sizes.last() == g.track_indices.len());
}

/// Each change that several tracks share is shown with its tracks, then each other
/// with its own.
pub proof fn law_changes_are_shown(
    grouped: Seq<GroupedChangeModel>,
    single: Seq<TagChangeModel>,
    i: int,
)
    ensures
        ({
            let lines = change_lines(grouped, single);
            let first = if grouped.len() == 0 {
                2int
            } else {
                grouped.len() as int + 5
            };
            &&& 0 <= i < grouped.len() && grouped[i].old_value.len() > 0
                && grouped[i].new_value.len() > 0 ==> lines[4 + i].spans[0].text == "  ["@
                + tracks_text(grouped[i].track_indices) + "] "@ + grouped[i].field_name + ": '"@
                + grouped[i].old_value + "' -> '"@ + grouped[i].new_value + "'"@
            &&& 0 <= i < single.len() && single[i].old_value.len() > 0
                && single[i].new_value.len() > 0 ==> lines[first + 2 + i].spans[0].text
                == "  Track "@ + decimal((single[i].track_idx + 1) as nat) + ": "@
                + single[i].field_name + ": '"@ + single[i].old_value + "' -> '"@
                + single[i].new_value + "'"@
        }),
{
    let lines = change_lines(grouped, single);
    let head = list2(
        line(
            "Total changes: "@ + decimal(change_count(grouped, single)),
            Style::plain().bold().fg(Color::Cyan),
        ),
        blank(),
    );
    if 0 <= i < grouped.len() {
        assert(lines[4 + i] == shared_part(grouped)[2 + i]);
    }
    if 0 <= i < single.len() {
        let first = head.len() + shared_part(grouped).len();
        assert(lines[first + 2 + i] == single_part(single)[2 + i]);
    }
}

} // verus!
