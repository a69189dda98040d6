//! What the browser shows.

use vstd::prelude::*;

use crate::lists::{chosen, distinct, lemma_chosen_start, lemma_chosen_step, put_new};
use crate::ordering::{in_order, sorted, Ranked};
use crate::paths::{behind_slash, last_dot};
use crate::release_packing::state::{click_rows, row_below, ListClickTargets, PackingModel, ReleasePackingBrowserState};
use crate::release_packing::types::{AlternativeModel, AlternativeReleaseInfo, AssignedTrackInfo, BreakdownModel, FocusedPane, OverrideModel, PackingCategory, PackingListEntry, ReasonModel, ReleaseGroup, ReleaseModel, ScoreValue, ScoreValueModel, SlotModel, TrackInfoModel, UnfilledSlotInfo, UnmatchedEntry, UnmatchedModel};
use crate::screen::{ink, line_of, list10, list12, list2, list3, list4, list5, list6, list7, nothing, put, put_all, span, visible, window, Color, Line, LineModel, Rect, Span, SpanModel, Style};
use crate::single::{law_full_share, law_product_follows_share, law_ratio_of_same, law_share_follows_part, law_whole_numbers_follow, one, product, ratio, share, to_nearest, Single};
use crate::text::{self, decimal, dotted, lowercase, padded, padded_left, repeated, separated, text_before};
use crate::text_input::TextInputModel;

verus! {

// ---------------------------------------------------------------------------
// Words
// ---------------------------------------------------------------------------

/// What stands behind the last slash of a path.
pub open spec fn tail_name(p: Seq<char>) -> Seq<char> {
    p.skip(behind_slash(p, p.len()) as int)
}

/// What stands before the last slash of a path, or a question mark.
pub open spec fn head_folder(p: Seq<char>) -> Seq<char> {
    let k = behind_slash(p, p.len());
    if k == 0 {
        "?"@
    } else {
        p.take(k - 1)
    }
}

/// What stands behind the last dot of a path, in lower case. A path without a
/// dot stands for itself.
pub open spec fn tail_format(p: Seq<char>) -> Seq<char> {
    lowercase(p.skip(last_dot(p, p.len()) as int))
}

/// The folder of a track.
pub open spec fn folder_word() -> spec_fn(TrackInfoModel) -> Seq<char> {
    |t: TrackInfoModel| head_folder(t.path)
}

/// The format of a track.
pub open spec fn format_word() -> spec_fn(TrackInfoModel) -> Seq<char> {
    |t: TrackInfoModel| tail_format(t.path)
}

/// A word with the number of times that it occurs.
#[derive(Debug)]
pub struct WordCount {
    pub word: String,
    pub count: usize,
}

/// The model of a [`WordCount`].
pub struct WordCountModel {
    pub word: Seq<char>,
    pub count: nat,
}

impl DeepView for WordCount {
    type V = WordCountModel;

    open spec fn deep_view(&self) -> WordCountModel {
        WordCountModel { word: self.word@, count: self.count as nat }
    }
}

/// The most frequent word stands first, and of two the first alphabetically.
impl Ranked for WordCount {
    open spec fn precedes(a: WordCountModel, b: WordCountModel) -> bool {
        a.count > b.count || (a.count == b.count && text_before(a.word, b.word))
    }

    fn before(&self, other: &Self) -> (r: bool) {
        self.count > other.count || (self.count == other.count && text::comes_before(
            self.word.as_str(),
            other.word.as_str(),
        ))
    }
}

/// The condition of being a word.
pub open spec fn is_word(w: Seq<char>) -> spec_fn(Seq<char>) -> bool {
    |v: Seq<char>| v == w
}

/// A word with the number of times that it occurs.
pub open spec fn with_count(words: Seq<Seq<char>>) -> spec_fn(Seq<char>) -> WordCountModel {
    |w: Seq<char>| WordCountModel { word: w, count: chosen(words, is_word(w)).len() }
}

/// The different words with their numbers, the most frequent first.
pub open spec fn word_counts(words: Seq<Seq<char>>) -> Seq<WordCountModel> {
    in_order(
        distinct(words).map_values(with_count(words)),
        |a: WordCountModel, b: WordCountModel| WordCount::precedes(a, b),
    )
}

// ---------------------------------------------------------------------------
// Coverage
// ---------------------------------------------------------------------------

/// The coverage of a release in whole percent.
pub open spec fn coverage_percent(r: ReleaseModel) -> nat {
    to_nearest(product(r.coverage(), ratio(100, 1)))
}

/// The colour of a coverage. A release that was probably packed by mistake
/// never looks healthy.
pub open spec fn coverage_ink(r: ReleaseModel, category: PackingCategory) -> Color {
    if category != PackingCategory::LowConfidence && r.covers_tenths(10) {
        Color::Green
    } else if r.covers_tenths(7) {
        Color::Yellow
    } else {
        Color::Red
    }
}

/// The coverage in words.
pub open spec fn coverage_text(r: ReleaseModel) -> Seq<char> {
    decimal(r.tracks.len()) + "/"@ + decimal(r.total_tracks as nat) + " tracks ("@ + decimal(
        coverage_percent(r),
    ) + "%)"@
}

// ---------------------------------------------------------------------------
// Lines
// ---------------------------------------------------------------------------

/// A line without text that still is one piece.
pub open spec fn gap() -> LineModel {
    line_of(seq![span(""@, Style::plain())])
}

/// A line of one piece.
pub open spec fn words(text: Seq<char>, style: Style) -> LineModel {
    line_of(seq![span(text, style)])
}

/// A label with a value.
pub open spec fn labelled(label: Seq<char>, value: Seq<char>) -> LineModel {
    line_of(list2(span(padded(label, 11), ink(Color::DarkGray)), span(value, ink(Color::White))))
}

/// A label with a value in a style.
pub open spec fn pair(label: Seq<char>, value: Seq<char>, style: Style) -> LineModel {
    line_of(list2(span(label, ink(Color::DarkGray)), span(value, style)))
}

/// A heading.
pub open spec fn heading(text: Seq<char>) -> LineModel {
    words(text, ink(Color::White).bold())
}

/// The title of the browser.
pub open spec fn title_view(name: Seq<char>, entries: nat) -> LineModel {
    line_of(
        list2(
            span(" "@ + name + " "@, ink(Color::White).bold()),
            span("("@ + decimal(entries) + " entries)"@, ink(Color::DarkGray)),
        ),
    )
}

/// The style of a line in hand, or of another.
pub open spec fn lit_or(selected: bool, other: Color) -> Style {
    if selected {
        ink(Color::Cyan).bold()
    } else {
        ink(other)
    }
}

/// The mark of a line in hand.
pub open spec fn pointer(selected: bool) -> Seq<char> {
    if selected {
        "▸ "@
    } else {
        "  "@
    }
}

/// A piece where a condition holds.
pub open spec fn piece_if(condition: bool, s: SpanModel) -> Seq<SpanModel> {
    if condition {
        seq![s]
    } else {
        Seq::empty()
    }
}

/// The line of a release in the left pane.
pub open spec fn release_entry(
    r: ReleaseModel,
    selected: bool,
    category: PackingCategory,
    width: nat,
) -> LineModel {
    let style = lit_or(selected, Color::White);
    line_of(
        list3(
            span(pointer(selected), style),
            span(dotted(r.release_title, width), style),
            span(
                " "@ + decimal(r.tracks.len()) + "/"@ + decimal(r.total_tracks as nat),
                ink(coverage_ink(r, category)),
            ),
        ) + piece_if(
            r.alternatives.len() != 0,
            span(" +"@ + decimal(r.alternatives.len()), ink(Color::DarkGray)),
        ) + piece_if(r.va_override is Some, span(" VA"@, ink(Color::Yellow))),
    )
}

/// The line of a file without a release in the left pane.
pub open spec fn unmatched_entry(u: UnmatchedModel, selected: bool, width: nat) -> LineModel {
    let style = lit_or(selected, Color::DarkGray);
    line_of(
        list2(span(pointer(selected), style), span(dotted(tail_name(u.path), width), style)),
    )
}

/// The cells of the left pane that a title may take.
pub open spec fn title_room(width: nat) -> nat {
    if width < 10 {
        0
    } else {
        (width - 10) as nat
    }
}

/// Whether the lines of the left pane are about results that there are.
pub open spec fn entries_valid(m: PackingModel) -> bool {
    forall|i: int|
        0 <= i < m.entries.len() ==> match #[trigger] m.entries[i] {
            PackingListEntry::Release { idx } => idx < m.releases.len(),
            PackingListEntry::Unmatched { idx } => idx < m.unmatched.len(),
        }
}

/// A line of the left pane.
pub open spec fn left_entry(m: PackingModel, i: int, width: nat) -> LineModel {
    let selected = m.focused_pane == FocusedPane::LeftPane && m.cursor == i;
    match m.entries[i] {
        PackingListEntry::Release { idx } => release_entry(
            m.releases[idx as int],
            selected,
            m.category,
            title_room(width),
        ),
        PackingListEntry::Unmatched { idx } => unmatched_entry(
            m.unmatched[idx as int],
            selected,
            title_room(width),
        ),
    }
}

/// The lines of the left pane.
pub open spec fn left_entries(m: PackingModel, width: nat) -> Seq<LineModel> {
    Seq::new(m.entries.len(), |i: int| left_entry(m, i, width))
}

/// The first line of a window of some height that shows the line in hand.
pub open spec fn into_window(cursor: int, scroll: int, height: int) -> int {
    let down = if height > 0 && cursor >= scroll + height {
        cursor - height + 1
    } else {
        scroll
    };
    if cursor < down {
        cursor
    } else {
        down
    }
}

/// The line of a track with a file.
pub open spec fn track_row(t: TrackInfoModel, selected: bool) -> LineModel {
    let style = lit_or(selected, Color::White);
    line_of(
        list4(
            span(pointer(selected), style),
            span(padded_left(t.track_number, 2) + " "@, ink(Color::DarkGray)),
            span(dotted(tail_name(t.path), 30), style),
            span("  "@ + t.score.0, ink(Color::Yellow)),
        ),
    )
}

/// The line of a track without a file.
pub open spec fn slot_row(s: SlotModel, selected: bool) -> LineModel {
    line_of(
        list5(
            span(pointer(selected), lit_or(selected, Color::Red)),
            span(padded_left(decimal(s.track_pos as nat), 2) + " "@, ink(Color::DarkGray)),
            span("░ "@, ink(Color::Red)),
            span(dotted(s.track_title, 28), ink(Color::DarkGray).italic()),
            span("  ----"@, ink(Color::DarkGray)),
        ),
    )
}

/// The lines of a release in the middle pane: its tracks with a file, then
/// those without.
pub open spec fn release_rows(r: ReleaseModel, focused: bool, cursor: usize) -> Seq<LineModel> {
    Seq::new(r.tracks.len(), |i: int| track_row(r.tracks[i], focused && cursor == i)) + Seq::new(
        r.unfilled.len(),
        |i: int| slot_row(r.unfilled[i], focused && cursor == r.tracks.len() + i),
    )
}

// ---------------------------------------------------------------------------
// Details
// ---------------------------------------------------------------------------

/// The short details of a release.
pub open spec fn summary_view(r: ReleaseModel, category: PackingCategory) -> Seq<LineModel> {
    list5(
        labelled("Release:"@, r.release_title),
        labelled("Artist:"@, r.release_artist),
        labelled("MBID:"@, r.release_id),
        gap(),
        pair("Coverage: "@, coverage_text(r), ink(coverage_ink(r, category))),
    )
}

/// The warning on a release that was probably packed by mistake.
pub open spec fn warning_part(reason: Option<ReasonModel>) -> Seq<LineModel> {
    match reason {
        Some(why) => list4(
            words("⚠ LOW CONFIDENCE — PROBABLE MISPACK ⚠"@, ink(Color::Red).bold()),
            line_of(
                list3(
                    span("  AcoustID ratio: "@, ink(Color::Yellow)),
                    span(why.acoustid_ratio + "%"@, ink(Color::Red).bold()),
                    span(" below threshold"@, ink(Color::DarkGray)),
                ),
            ),
            line_of(
                list3(
                    span("  Avg album match: "@, ink(Color::Yellow)),
                    span(why.avg_album_match, ink(Color::Red).bold()),
                    span(" below threshold"@, ink(Color::DarkGray)),
                ),
            ),
            gap(),
        ),
        None => Seq::empty(),
    }
}

/// What a release is.
pub open spec fn identity_part(r: ReleaseModel, category: PackingCategory) -> Seq<LineModel> {
    list7(
        heading("Release Overview"@),
        gap(),
        labelled("Release:"@, r.release_title),
        labelled("Artist:"@, r.release_artist),
        labelled("MBID:"@, r.release_id),
        gap(),
        pair("Coverage:  "@, coverage_text(r), ink(coverage_ink(r, category))),
    )
}

/// A format with its number.
pub open spec fn format_note() -> spec_fn(WordCountModel) -> Seq<char> {
    |w: WordCountModel| decimal(w.count) + " "@ + w.word
}

/// The formats of the files of a release, in words.
pub open spec fn formats_text(r: ReleaseModel) -> Seq<char> {
    separated(
        word_counts(r.tracks.map_values(format_word())).map_values(format_note()),
        ", "@,
    )
}

/// The files of a release, and its gaps.
pub open spec fn files_part(r: ReleaseModel) -> Seq<LineModel> {
    let files = seq![
        line_of(
            list3(
                span("Files:     "@, ink(Color::DarkGray)),
                span(decimal(r.tracks.len()) + " assigned"@, ink(Color::White)),
                span(" ("@ + formats_text(r) + ")"@, ink(Color::DarkGray)),
            ),
        ),
    ];
    if r.unfilled.len() == 0 {
        files
    } else {
        files.push(
            pair("Unfilled:  "@, decimal(r.unfilled.len()) + " slots"@, ink(Color::Red)),
        )
    }
}

/// The line of a folder.
pub open spec fn folder_row() -> spec_fn(WordCountModel) -> LineModel {
    |w: WordCountModel|
        line_of(
            list2(
                span("  "@ + padded_left(decimal(w.count), 3) + "  "@, ink(Color::Yellow)),
                span(w.word, ink(Color::White)),
            ),
        )
}

/// The folders that the files of a release come from.
pub open spec fn folders_part(r: ReleaseModel) -> Seq<LineModel> {
    list3(
        gap(),
        words("── Source Directories ───────────────"@, ink(Color::DarkGray)),
        gap(),
    ) + word_counts(r.tracks.map_values(folder_word())).map_values(folder_row())
}

/// Another artist for the release.
pub open spec fn override_part(va: Option<OverrideModel>) -> Seq<LineModel> {
    match va {
        Some(v) => list5(
            gap(),
            words("── VA Override ─────────────────────"@, ink(Color::DarkGray)),
            gap(),
            line_of(
                list2(
                    span("  Suggested: "@, ink(Color::Yellow)),
                    span(v.suggested_artist, ink(Color::White).bold()),
                ),
            ),
            pair("  Source:    "@, v.source, ink(Color::DarkGray)),
        ),
        None => Seq::empty(),
    }
}

/// The lines of an alternative.
pub open spec fn alternative_rows(a: AlternativeModel, i: int) -> Seq<LineModel> {
    list3(
        pair("  "@ + decimal((i + 1) as nat) + ". "@, a.release_title, ink(Color::White)),
        line_of(
            list5(
                span("     Artist: "@, ink(Color::DarkGray)),
                span(a.release_artist, ink(Color::White)),
                span("  Score: "@, ink(Color::DarkGray)),
                span(a.alternative_score + "/"@ + a.winner_score, ink(Color::White)),
                span(
                    "  ("@ + decimal(a.inode_count as nat) + " tracks)"@,
                    ink(Color::DarkGray),
                ),
            ),
        ),
        pair("     MBID: "@, a.release_id, ink(Color::DarkGray)),
    )
}

/// The lines of the first alternatives.
pub open spec fn first_alternatives(all: Seq<AlternativeModel>, n: nat) -> Seq<LineModel>
    decreases n,
{
    if n == 0 {
        Seq::empty()
    } else {
        first_alternatives(all, (n - 1) as nat) + alternative_rows(all[n - 1], n - 1)
    }
}

/// The releases that lost.
pub open spec fn alternatives_part(all: Seq<AlternativeModel>) -> Seq<LineModel> {
    if all.len() == 0 {
        Seq::empty()
    } else {
        list3(
            gap(),
            words(
                "── Alternatives ("@ + decimal(all.len()) + ") ────────────────"@,
                ink(Color::DarkGray),
            ),
            gap(),
        ) + first_alternatives(all, all.len())
    }
}

/// The overview of a release.
pub open spec fn overview_view(r: ReleaseModel, category: PackingCategory) -> Seq<LineModel> {
    warning_part(r.low_confidence_reason) + identity_part(r, category) + files_part(r)
        + folders_part(r) + override_part(r.va_override) + alternatives_part(r.alternatives)
}

/// The bar of a score.
pub open spec fn score_row(label: Seq<char>, s: ScoreValueModel) -> LineModel {
    let filled: nat = if s.bar < 20 {
        s.bar as nat
    } else {
        20
    };
    line_of(
        list3(
            span("  "@ + label, ink(Color::DarkGray)),
            span(" "@ + s.text + "  "@, ink(Color::White)),
            span(repeated('█', filled) + repeated(' ', (20 - filled) as nat), ink(Color::Yellow)),
        ),
    )
}

/// The bars of all that a score is made of.
pub open spec fn breakdown_part(b: BreakdownModel) -> Seq<LineModel> {
    list6(
        score_row("AcoustID confidence:"@, b.acoustid_confidence),
        score_row("Duration match:     "@, b.duration_match),
        score_row("Title match:        "@, b.title_match),
        score_row("Artist match:       "@, b.artist_match),
        score_row("Album match:        "@, b.album_match),
        score_row("Track number match: "@, b.track_number_match),
    )
}

/// The details of a track with a file.
pub open spec fn track_view(t: TrackInfoModel, r: ReleaseModel) -> Seq<LineModel> {
    let format = match t.medium_format {
        Some(f) => f,
        None => "?"@,
    };
    list12(
        heading("Track Assignment"@),
        gap(),
        labelled("File:"@, t.path),
        gap(),
        labelled("Release:"@, r.release_title),
        pair(
            "Position:  "@,
            "Disc "@ + decimal(t.medium_position as nat) + ", Track "@ + decimal(
                t.track_position as nat,
            ) + " ("@ + format + ")"@,
            ink(Color::White),
        ),
        labelled("MB Track:"@, t.track_title),
        labelled("Recording:"@, t.recording_id),
        gap(),
        pair("Score: "@, t.score.1, ink(Color::Yellow).bold()),
        words("── Score Breakdown ──────────────────"@, ink(Color::DarkGray)),
        gap(),
    ) + breakdown_part(t.score_breakdown) + list3(
        gap(),
        pair(
            "Alternatives considered: "@,
            decimal(t.alternatives_count as nat),
            ink(Color::White),
        ),
        pair(
            "Release coverage: "@,
            decimal(coverage_percent(r)) + "% ("@ + decimal(r.tracks.len()) + "/"@ + decimal(
                r.total_tracks as nat,
            ) + ")"@,
            ink(Color::White),
        ),
    )
}

/// The details of a track without a file.
pub open spec fn slot_view(s: SlotModel, r: ReleaseModel) -> Seq<LineModel> {
    list10(
        heading("Unfilled Release Slot"@),
        gap(),
        labelled("Release:"@, r.release_title),
        labelled("Artist:"@, r.release_artist),
        pair(
            "Position:  "@,
            "Disc "@ + decimal(s.medium_pos as nat) + ", Track "@ + decimal(s.track_pos as nat),
            ink(Color::White),
        ),
        labelled("Expected:"@, s.track_title),
        labelled("Recording:"@, s.recording_id),
        gap(),
        words("This track position has no matching corpus file."@, ink(Color::DarkGray)),
        words(
            decimal(r.tracks.len()) + " of "@ + decimal(r.total_tracks as nat)
                + " tracks are filled ("@ + decimal(coverage_percent(r)) + "% coverage)."@,
            ink(Color::DarkGray),
        ),
    )
}

/// The line of an id.
pub open spec fn id_row() -> spec_fn(Seq<char>) -> LineModel {
    |id: Seq<char>| words("  "@ + id, ink(Color::White))
}

/// What is known of a file without a release: why it has none.
pub open spec fn why_part(n: nat) -> Seq<LineModel> {
    if n > 0 {
        list2(
            words(
                "AcoustID matched "@ + decimal(n) + " recording"@ + (if n == 1 {
                    ""@
                } else {
                    "s"@
                }) + " but this file was not"@,
                ink(Color::DarkGray),
            ),
            words("assigned to any release during conflict resolution."@, ink(Color::DarkGray)),
        )
    } else {
        seq![words("No AcoustID recording matches found."@, ink(Color::DarkGray))]
    }
}

/// The recordings that a file was recognised as.
pub open spec fn recordings_part(ids: Seq<Seq<char>>) -> Seq<LineModel> {
    if ids.len() == 0 {
        Seq::empty()
    } else {
        seq![words("Matched recordings:"@, ink(Color::DarkGray))] + ids.map_values(id_row())
    }
}

/// The releases that a file was considered for.
pub open spec fn considered_part(ids: Seq<Seq<char>>) -> Seq<LineModel> {
    if ids.len() == 0 {
        Seq::empty()
    } else {
        list2(
            gap(),
            words("Considered releases: "@ + decimal(ids.len()), ink(Color::DarkGray)),
        ) + ids.map_values(id_row())
    }
}

/// The details of a file without a release.
pub open spec fn unmatched_view(u: UnmatchedModel) -> Seq<LineModel> {
    list4(heading("Unmatched Corpus Track"@), gap(), labelled("File:"@, u.path), gap()) + why_part(
        u.recording_ids.len(),
    ) + seq![gap()] + recordings_part(u.recording_ids) + considered_part(u.considered_release_ids)
}

/// The details of the item in hand of a release: a track, a gap, or the release.
pub open spec fn item_view(r: ReleaseModel, cursor: usize, category: PackingCategory) -> Seq<
    LineModel,
> {
    if cursor < r.tracks.len() {
        track_view(r.tracks[cursor as int], r)
    } else if cursor < r.tracks.len() + r.unfilled.len() {
        slot_view(r.unfilled[cursor - r.tracks.len()], r)
    } else {
        summary_view(r, category)
    }
}

/// All the details of what is in hand.
pub open spec fn details_view(m: PackingModel) -> Seq<LineModel> {
    match m.entry() {
        Some(PackingListEntry::Release { idx }) => if m.focused_pane == FocusedPane::LeftPane {
            overview_view(m.releases[idx as int], m.category)
        } else {
            item_view(m.releases[idx as int], m.track_cursor, m.category)
        },
        Some(PackingListEntry::Unmatched { idx }) => unmatched_view(m.unmatched[idx as int]),
        None => seq![words("No selection"@, ink(Color::DarkGray))],
    }
}

/// The track in hand, held to the tracks and gaps of a release.
pub open spec fn held_track(release: ReleaseModel, cursor: usize) -> usize {
    let n = release.tracks.len() + release.unfilled.len();
    if n > 0 && cursor >= n {
        (n - 1) as usize
    } else {
        cursor
    }
}

/// The browser once the tracks of a release were drawn in a window: the track in
/// hand is one of them, and in the window.
pub open spec fn tracks_drawn(m: PackingModel, idx: int, height: nat) -> PackingModel {
    let cursor = held_track(m.releases[idx], m.track_cursor);
    PackingModel {
        track_cursor: cursor,
        track_scroll: into_window(
            cursor as int,
            m.track_scroll as int,
            height as int,
        ) as usize,
        ..m
    }
}

/// The tracks of a release in a window.
pub open spec fn tracks_shown(m: PackingModel, idx: int, height: nat) -> Seq<LineModel> {
    window(
        release_rows(
            m.releases[idx],
            m.focused_pane == FocusedPane::MiddlePane,
            m.track_cursor,
        ),
        tracks_drawn(m, idx, height).track_scroll as nat,
        height,
    )
}

/// The middle pane: the tracks of the release in hand, or what is known of the
/// file in hand, and the browser once it was drawn.
pub open spec fn middle_pane(m: PackingModel, height: nat) -> (PackingModel, Seq<LineModel>) {
    match m.entry() {
        Some(PackingListEntry::Release { idx }) => (
            tracks_drawn(m, idx as int, height),
            tracks_shown(m, idx as int, height),
        ),
        Some(PackingListEntry::Unmatched { idx }) => (
            m,
            window(unmatched_view(m.unmatched[idx as int]), 0, height),
        ),
        None => (m, seq![words("No entries"@, ink(Color::DarkGray))]),
    }
}

/// How far the details stay scrolled: not beyond their last window.
pub open spec fn held_scroll(total: nat, scroll: usize, height: nat) -> usize {
    if total <= height {
        0
    } else if scroll > total - height {
        (total - height) as usize
    } else {
        scroll
    }
}

/// The lines of the overlay in which an id is typed.
pub open spec fn pin_view(t: TextInputModel, error: Option<Seq<char>>) -> Seq<LineModel> {
    let inside = t.cursor < t.value.len();
    let field = line_of(
        list4(
            span("Release ID: "@, ink(Color::DarkGray)),
            span(t.value.take(t.cursor as int), ink(Color::White)),
            span(
                if inside {
                    seq![t.value[t.cursor as int]]
                } else {
                    seq![' ']
                },
                ink(Color::Black).bg(Color::White),
            ),
            span(
                if inside {
                    t.value.skip(t.cursor as int + 1)
                } else {
                    Seq::empty()
                },
                ink(Color::White),
            ),
        ),
    );
    (match error {
        Some(e) => list2(field, words(e, ink(Color::Red))),
        None => seq![field],
    }).push(gap())
}

// ---------------------------------------------------------------------------
// Building words
// ---------------------------------------------------------------------------

/// Where the last component of a path starts.
fn last_component(x: &Vec<char>) -> (r: usize)
    ensures
        r == behind_slash(x@, x@.len()),
        r <= x.len(),
{
    let mut at: usize = x.len();
    while at > 0 && x[at - 1] != '/'
        invariant
            at <= x.len(),
            behind_slash(x@, x@.len()) == behind_slash(x@, at as nat),
        decreases at,
    {
        at = at - 1;
    }
    at
}

/// What stands behind the last slash of a path.
fn tail_of(p: &str) -> (r: &str)
    ensures
        r@ == tail_name(p@),
{
    let x: Vec<char> = text::chars_of(p);
    let at: usize = last_component(&x);
    let r: &str = p.substring_char(at, x.len());
    proof {
        assert(r@ =~= p@.skip(at as int));
    }
    r
}

/// What stands before the last slash of a path, or a question mark.
fn head_of(p: &str) -> (r: String)
    ensures
        r@ == head_folder(p@),
{
    let x: Vec<char> = text::chars_of(p);
    let at: usize = last_component(&x);
    if at == 0 {
        "?".to_owned()
    } else {
        let r: &str = p.substring_char(0, at - 1);
        proof {
            assert(r@ =~= p@.take(at - 1));
        }
        r.to_owned()
    }
}

/// What stands behind the last dot of a path, in lower case.
fn format_of(p: &str) -> (r: String)
    ensures
        r@ == tail_format(p@),
{
    let x: Vec<char> = text::chars_of(p);
    let mut at: usize = x.len();
    while at > 0 && x[at - 1] != '.'
        invariant
            x@ == p@,
            at <= x.len(),
            last_dot(x@, x@.len()) == last_dot(x@, at as nat),
        decreases at,
    {
        at = at - 1;
    }
    let r: &str = p.substring_char(at, x.len());
    proof {
        assert(r@ =~= p@.skip(at as int));
    }
    text::to_lowercase(r)
}

/// The different words with their numbers, the most frequent first.
fn count_words(words: &Vec<String>) -> (r: Vec<WordCount>)
    ensures
        r.deep_view() == word_counts(words.deep_view()),
{
    let ghost v = words.deep_view();
    let mut kinds: Vec<String> = nothing();
    proof {
        assert(v.take(0) =~= Seq::<Seq<char>>::empty());
    }
    let mut i: usize = 0;
    while i < words.len()
        invariant
            i <= words.len(),
            v == words.deep_view(),
            kinds.deep_view() == distinct(v.take(i as int)),
        decreases words.len() - i,
    {
        proof {
            crate::lists::lemma_distinct_step(v, i as int);
        }
        put_new(&mut kinds, words[i].clone());
        i = i + 1;
    }
    proof {
        assert(v.take(v.len() as int) =~= v);
    }
    let ghost ks = kinds.deep_view();
    let mut out: Vec<WordCount> = nothing();
    let mut k: usize = 0;
    while k < kinds.len()
        invariant
            k <= kinds.len(),
            v == words.deep_view(),
            ks == kinds.deep_view(),
            out.len() == k,
            forall|j: int| 0 <= j < k ==> (#[trigger] out[j]).deep_view() == with_count(v)(ks[j]),
        decreases kinds.len() - k,
    {
        let n: usize = times(words, kinds[k].as_str());
        out.push(WordCount { word: kinds[k].clone(), count: n });
        k = k + 1;
    }
    proof {
        assert(out.deep_view() =~= ks.map_values(with_count(v)));
    }
    sorted(out)
}

/// How often a word occurs.
fn times(words: &Vec<String>, w: &str) -> (r: usize)
    ensures
        r == chosen(words.deep_view(), is_word(w@)).len(),
{
    let ghost v = words.deep_view();
    proof {
        lemma_chosen_start(v, is_word(w@));
    }
    let mut n: usize = 0;
    let mut i: usize = 0;
    while i < words.len()
        invariant
            i <= words.len(),
            n <= i,
            v == words.deep_view(),
            n == chosen(v.take(i as int), is_word(w@)).len(),
        decreases words.len() - i,
    {
        proof {
            lemma_chosen_step(v, i as int, is_word(w@));
        }
        if text::same(words[i].as_str(), w) {
            n = n + 1;
        }
        i = i + 1;
    }
    proof {
        assert(v.take(v.len() as int) =~= v);
    }
    n
}

/// The folders of some tracks.
fn folders_of(tracks: &Vec<AssignedTrackInfo>) -> (r: Vec<String>)
    ensures
        r.deep_view() == tracks.deep_view().map_values(folder_word()),
{
    let ghost s = tracks.deep_view();
    let mut out: Vec<String> = nothing();
    let mut i: usize = 0;
    while i < tracks.len()
        invariant
            i <= tracks.len(),
            s == tracks.deep_view(),
            out.len() == i,
            forall|k: int| 0 <= k < i ==> (#[trigger] out[k])@ == folder_word()(s[k]),
        decreases tracks.len() - i,
    {
        out.push(head_of(tracks[i].path.as_str()));
        i = i + 1;
    }
    proof {
        assert(out.deep_view() =~= s.map_values(folder_word()));
    }
    out
}

/// The formats of some tracks.
fn formats_of(tracks: &Vec<AssignedTrackInfo>) -> (r: Vec<String>)
    ensures
        r.deep_view() == tracks.deep_view().map_values(format_word()),
{
    let ghost s = tracks.deep_view();
    let mut out: Vec<String> = nothing();
    let mut i: usize = 0;
    while i < tracks.len()
        invariant
            i <= tracks.len(),
            s == tracks.deep_view(),
            out.len() == i,
            forall|k: int| 0 <= k < i ==> (#[trigger] out[k])@ == format_word()(s[k]),
        decreases tracks.len() - i,
    {
        out.push(format_of(tracks[i].path.as_str()));
        i = i + 1;
    }
    proof {
        assert(out.deep_view() =~= s.map_values(format_word()));
    }
    out
}

/// The coverage of a release in whole percent.
fn coverage_number(r: &ReleaseGroup) -> (n: u128)
    ensures
        n == coverage_percent(r.deep_view()),
{
    r.coverage().times(Single::of(100, 1)).nearest_whole()
}

/// The colour of a coverage.
pub fn coverage_color(r: &ReleaseGroup, category: PackingCategory) -> (c: Color)
    ensures
        c == coverage_ink(r.deep_view(), category),
{
    if category != PackingCategory::LowConfidence && r.covers_tenths(10) {
        Color::Green
    } else if r.covers_tenths(7) {
        Color::Yellow
    } else {
        Color::Red
    }
}

/// The coverage in words.
fn coverage_label(r: &ReleaseGroup) -> (s: String)
    ensures
        s@ == coverage_text(r.deep_view()),
{
    let mut s: String = text::cat4(
        text::count(r.tracks.len()).as_str(),
        "/",
        text::dec(r.total_tracks as u128).as_str(),
        " tracks (",
    );
    s.append(text::dec(coverage_number(r)).as_str());
    s.append("%)");
    s
}

// ---------------------------------------------------------------------------
// Building lines
// ---------------------------------------------------------------------------

/// A line without text that still is one piece.
fn gap_line() -> (r: Line)
    ensures
        r.deep_view() == gap(),
{
    Line::one("", Style::plain())
}

/// A label with a value.
fn kv_line(label: &str, value: &str) -> (r: Line)
    ensures
        r.deep_view() == labelled(label@, value@),
{
    let mut spans: Vec<Span> = nothing();
    put(&mut spans, Span::styled(text::pad(label, 11).as_str(), ink(Color::DarkGray)));
    put(&mut spans, Span::styled(value, ink(Color::White)));
    Line::of(spans)
}

/// A label with a value in a style.
fn pair_line(label: &str, value: &str, style: Style) -> (r: Line)
    ensures
        r.deep_view() == pair(label@, value@, style),
{
    let mut spans: Vec<Span> = nothing();
    put(&mut spans, Span::styled(label, ink(Color::DarkGray)));
    put(&mut spans, Span::styled(value, style));
    Line::of(spans)
}

/// The style of a line in hand, or of another.
fn lit_style(selected: bool, other: Color) -> (r: Style)
    ensures
        r == lit_or(selected, other),
{
    if selected {
        ink(Color::Cyan).bold()
    } else {
        ink(other)
    }
}

/// The mark of a line in hand.
fn mark(selected: bool) -> (r: &'static str)
    ensures
        r@ == pointer(selected),
{
    if selected {
        "▸ "
    } else {
        "  "
    }
}

/// Builds the line of a release in the left pane.
fn release_line(
    r: &ReleaseGroup,
    selected: bool,
    category: PackingCategory,
    width: usize,
) -> (l: Line)
    ensures
        l.deep_view() == release_entry(r.deep_view(), selected, category, width as nat),
{
    let style: Style = lit_style(selected, Color::White);
    let mut spans: Vec<Span> = nothing();
    put(&mut spans, Span::styled(mark(selected), style));
    put(
        &mut spans,
        Span::styled(text::truncate_for_width(r.release_title.as_str(), width).as_str(), style),
    );
    put(
        &mut spans,
        Span::styled(
            text::cat4(
                " ",
                text::count(r.tracks.len()).as_str(),
                "/",
                text::dec(r.total_tracks as u128).as_str(),
            ).as_str(),
            ink(coverage_color(r, category)),
        ),
    );
    let mut more: Vec<Span> = nothing();
    if r.alternatives.len() != 0 {
        put(
            &mut more,
            Span::styled(
                text::cat2(" +", text::count(r.alternatives.len()).as_str()).as_str(),
                ink(Color::DarkGray),
            ),
        );
    }
    put_all(&mut spans, more);
    let mut last: Vec<Span> = nothing();
    if r.va_override.is_some() {
        put(&mut last, Span::styled(" VA", ink(Color::Yellow)));
    }
    put_all(&mut spans, last);
    Line::of(spans)
}

/// Builds the warning on a release that was probably packed by mistake.
fn warning_lines(r: &ReleaseGroup) -> (lines: Vec<Line>)
    ensures
        lines.deep_view() == warning_part(r.deep_view().low_confidence_reason),
{
    let mut lines: Vec<Line> = nothing();
    if let Some(why) = &r.low_confidence_reason {
        put(
            &mut lines,
            Line::one("⚠ LOW CONFIDENCE — PROBABLE MISPACK ⚠", ink(Color::Red).bold()),
        );
        let mut a: Vec<Span> = nothing();
        put(&mut a, Span::styled("  AcoustID ratio: ", ink(Color::Yellow)));
        put(
            &mut a,
            Span::styled(
                text::cat2(why.acoustid_ratio.as_str(), "%").as_str(),
                ink(Color::Red).bold(),
            ),
        );
        put(&mut a, Span::styled(" below threshold", ink(Color::DarkGray)));
        put(&mut lines, Line::of(a));
        let mut b: Vec<Span> = nothing();
        put(&mut b, Span::styled("  Avg album match: ", ink(Color::Yellow)));
        put(&mut b, Span::styled(why.avg_album_match.as_str(), ink(Color::Red).bold()));
        put(&mut b, Span::styled(" below threshold", ink(Color::DarkGray)));
        put(&mut lines, Line::of(b));
        put(&mut lines, gap_line());
    }
    lines
}

/// Builds what a release is.
fn identity_lines(r: &ReleaseGroup, category: PackingCategory) -> (lines: Vec<Line>)
    ensures
        lines.deep_view() == identity_part(r.deep_view(), category),
{
    let mut lines: Vec<Line> = nothing();
    put(&mut lines, Line::one("Release Overview", ink(Color::White).bold()));
    put(&mut lines, gap_line());
    put(&mut lines, kv_line("Release:", r.release_title.as_str()));
    put(&mut lines, kv_line("Artist:", r.release_artist.as_str()));
    put(&mut lines, kv_line("MBID:", r.release_id.as_str()));
    put(&mut lines, gap_line());
    put(
        &mut lines,
        pair_line("Coverage:  ", coverage_label(r).as_str(), ink(coverage_color(r, category))),
    );
    lines
}

/// Builds the files of a release, and its gaps.
fn files_lines(r: &ReleaseGroup) -> (lines: Vec<Line>)
    ensures
        lines.deep_view() == files_part(r.deep_view()),
{
    let kinds: Vec<WordCount> = count_words(&formats_of(&r.tracks));
    let ghost ks = kinds.deep_view();
    let mut notes: Vec<String> = nothing();
    let mut i: usize = 0;
    while i < kinds.len()
        invariant
            i <= kinds.len(),
            ks == kinds.deep_view(),
            notes.len() == i,
            forall|k: int| 0 <= k < i ==> (#[trigger] notes[k])@ == format_note()(ks[k]),
        decreases kinds.len() - i,
    {
        notes.push(
            text::cat3(text::count(kinds[i].count).as_str(), " ", kinds[i].word.as_str()),
        );
        i = i + 1;
    }
    proof {
        assert(notes.deep_view() =~= ks.map_values(format_note()));
    }
    let summary: String = text::join(&notes, ", ");
    let mut spans: Vec<Span> = nothing();
    put(&mut spans, Span::styled("Files:     ", ink(Color::DarkGray)));
    put(
        &mut spans,
        Span::styled(
            text::cat2(text::count(r.tracks.len()).as_str(), " assigned").as_str(),
            ink(Color::White),
        ),
    );
    put(
        &mut spans,
        Span::styled(text::cat3(" (", summary.as_str(), ")").as_str(), ink(Color::DarkGray)),
    );
    let mut lines: Vec<Line> = nothing();
    put(&mut lines, Line::of(spans));
    if r.unfilled.len() != 0 {
        put(
            &mut lines,
            pair_line(
                "Unfilled:  ",
                text::cat2(text::count(r.unfilled.len()).as_str(), " slots").as_str(),
                ink(Color::Red),
            ),
        );
    }
    lines
}

/// Builds the folders that the files of a release come from.
fn folders_lines(r: &ReleaseGroup) -> (lines: Vec<Line>)
    ensures
        lines.deep_view() == folders_part(r.deep_view()),
{
    let mut lines: Vec<Line> = nothing();
    put(&mut lines, gap_line());
    put(
        &mut lines,
        Line::one("── Source Directories ───────────────", ink(Color::DarkGray)),
    );
    put(&mut lines, gap_line());
    let folders: Vec<WordCount> = count_words(&folders_of(&r.tracks));
    let ghost fs = folders.deep_view();
    let mut rows: Vec<Line> = nothing();
    let mut i: usize = 0;
    while i < folders.len()
        invariant
            i <= folders.len(),
            fs == folders.deep_view(),
            rows.len() == i,
            forall|k: int| 0 <= k < i ==> (#[trigger] rows[k]).deep_view() == folder_row()(fs[k]),
        decreases folders.len() - i,
    {
        let mut spans: Vec<Span> = nothing();
        put(
            &mut spans,
            Span::styled(
                text::cat3(
                    "  ",
                    text::pad_left(text::count(folders[i].count).as_str(), 3).as_str(),
                    "  ",
                ).as_str(),
                ink(Color::Yellow),
            ),
        );
        put(&mut spans, Span::styled(folders[i].word.as_str(), ink(Color::White)));
        rows.push(Line::of(spans));
        i = i + 1;
    }
    proof {
        assert(rows.deep_view() =~= fs.map_values(folder_row()));
    }
    put_all(&mut lines, rows);
    lines
}

/// Builds another artist for the release.
fn override_lines(r: &ReleaseGroup) -> (lines: Vec<Line>)
    ensures
        lines.deep_view() == override_part(r.deep_view().va_override),
{
    let mut lines: Vec<Line> = nothing();
    if let Some(v) = &r.va_override {
        put(&mut lines, gap_line());
        put(
            &mut lines,
            Line::one("── VA Override ─────────────────────", ink(Color::DarkGray)),
        );
        put(&mut lines, gap_line());
        let mut spans: Vec<Span> = nothing();
        put(&mut spans, Span::styled("  Suggested: ", ink(Color::Yellow)));
        put(&mut spans, Span::styled(v.suggested_artist.as_str(), ink(Color::White).bold()));
        put(&mut lines, Line::of(spans));
        put(
            &mut lines,
            pair_line("  Source:    ", v.source.as_str(), ink(Color::DarkGray)),
        );
    }
    lines
}

/// Builds the lines of an alternative.
fn alternative_lines(a: &AlternativeReleaseInfo, i: usize) -> (lines: Vec<Line>)
    ensures
        lines.deep_view() == alternative_rows(a.deep_view(), i as int),
{
    let mut lines: Vec<Line> = nothing();
    put(
        &mut lines,
        pair_line(
            text::cat3("  ", text::place(i).as_str(), ". ").as_str(),
            a.release_title.as_str(),
            ink(Color::White),
        ),
    );
    let mut spans: Vec<Span> = nothing();
    put(&mut spans, Span::styled("     Artist: ", ink(Color::DarkGray)));
    put(&mut spans, Span::styled(a.release_artist.as_str(), ink(Color::White)));
    put(&mut spans, Span::styled("  Score: ", ink(Color::DarkGray)));
    put(
        &mut spans,
        Span::styled(
            text::cat3(a.alternative_score.as_str(), "/", a.winner_score.as_str()).as_str(),
            ink(Color::White),
        ),
    );
    put(
        &mut spans,
        Span::styled(
            text::cat3("  (", text::dec(a.inode_count as u128).as_str(), " tracks)").as_str(),
            ink(Color::DarkGray),
        ),
    );
    put(&mut lines, Line::of(spans));
    put(
        &mut lines,
        pair_line("     MBID: ", a.release_id.as_str(), ink(Color::DarkGray)),
    );
    lines
}

/// Builds the releases that lost.
fn alternatives_lines(r: &ReleaseGroup) -> (lines: Vec<Line>)
    ensures
        lines.deep_view() == alternatives_part(r.deep_view().alternatives),
{
    let mut lines: Vec<Line> = nothing();
    if r.alternatives.len() == 0 {
        return lines;
    }
    put(&mut lines, gap_line());
    put(
        &mut lines,
        Line::one(
            text::cat3(
                "── Alternatives (",
                text::count(r.alternatives.len()).as_str(),
                ") ────────────────",
            ).as_str(),
            ink(Color::DarkGray),
        ),
    );
    put(&mut lines, gap_line());
    let ghost all = r.alternatives.deep_view();
    let mut rows: Vec<Line> = nothing();
    let mut i: usize = 0;
    while i < r.alternatives.len()
        invariant
            i <= r.alternatives.len(),
            all == r.alternatives.deep_view(),
            rows.deep_view() == first_alternatives(all, i as nat),
        decreases r.alternatives.len() - i,
    {
        put_all(&mut rows, alternative_lines(&r.alternatives[i], i));
        i = i + 1;
    }
    put_all(&mut lines, rows);
    lines
}

/// Builds the overview of a release.
pub fn release_overview(r: &ReleaseGroup, category: PackingCategory) -> (lines: Vec<Line>)
    ensures
        lines.deep_view() == overview_view(r.deep_view(), category),
{
    let mut lines: Vec<Line> = warning_lines(r);
    put_all(&mut lines, identity_lines(r, category));
    put_all(&mut lines, files_lines(r));
    put_all(&mut lines, folders_lines(r));
    put_all(&mut lines, override_lines(r));
    put_all(&mut lines, alternatives_lines(r));
    lines
}

/// Builds the short details of a release.
pub fn release_summary(r: &ReleaseGroup, category: PackingCategory) -> (lines: Vec<Line>)
    ensures
        lines.deep_view() == summary_view(r.deep_view(), category),
{
    let mut lines: Vec<Line> = nothing();
    put(&mut lines, kv_line("Release:", r.release_title.as_str()));
    put(&mut lines, kv_line("Artist:", r.release_artist.as_str()));
    put(&mut lines, kv_line("MBID:", r.release_id.as_str()));
    put(&mut lines, gap_line());
    put(
        &mut lines,
        pair_line("Coverage: ", coverage_label(r).as_str(), ink(coverage_color(r, category))),
    );
    lines
}

/// Builds the bar of a score.
fn score_bar(label: &str, s: &ScoreValue) -> (l: Line)
    ensures
        l.deep_view() == score_row(label@, s.deep_view()),
{
    let filled: usize = if s.bar < 20 {
        s.bar
    } else {
        20
    };
    let bar: String = text::cat2(
        text::repeat('█', filled).as_str(),
        text::repeat(' ', 20 - filled).as_str(),
    );
    let mut spans: Vec<Span> = nothing();
    put(&mut spans, Span::styled(text::cat2("  ", label).as_str(), ink(Color::DarkGray)));
    put(
        &mut spans,
        Span::styled(text::cat3(" ", s.text.as_str(), "  ").as_str(), ink(Color::White)),
    );
    put(&mut spans, Span::styled(bar.as_str(), ink(Color::Yellow)));
    Line::of(spans)
}

/// Builds the details of a track with a file.
pub fn track_detail(t: &AssignedTrackInfo, r: &ReleaseGroup) -> (lines: Vec<Line>)
    ensures
        lines.deep_view() == track_view(t.deep_view(), r.deep_view()),
{
    let format: &str = match &t.medium_format {
        Some(f) => f.as_str(),
        None => "?",
    };
    let mut position: String = text::cat4(
        "Disc ",
        text::dec(t.medium_position as u128).as_str(),
        ", Track ",
        text::dec(t.track_position as u128).as_str(),
    );
    position.append(" (");
    position.append(format);
    position.append(")");
    let mut lines: Vec<Line> = nothing();
    put(&mut lines, Line::one("Track Assignment", ink(Color::White).bold()));
    put(&mut lines, gap_line());
    put(&mut lines, kv_line("File:", t.path.as_str()));
    put(&mut lines, gap_line());
    put(&mut lines, kv_line("Release:", r.release_title.as_str()));
    put(&mut lines, pair_line("Position:  ", position.as_str(), ink(Color::White)));
    put(&mut lines, kv_line("MB Track:", t.track_title.as_str()));
    put(&mut lines, kv_line("Recording:", t.recording_id.as_str()));
    put(&mut lines, gap_line());
    put(&mut lines, pair_line("Score: ", t.score.1.as_str(), ink(Color::Yellow).bold()));
    put(
        &mut lines,
        Line::one("── Score Breakdown ──────────────────", ink(Color::DarkGray)),
    );
    put(&mut lines, gap_line());
    let mut bars: Vec<Line> = nothing();
    put(&mut bars, score_bar("AcoustID confidence:", &t.score_breakdown.acoustid_confidence));
    put(&mut bars, score_bar("Duration match:     ", &t.score_breakdown.duration_match));
    put(&mut bars, score_bar("Title match:        ", &t.score_breakdown.title_match));
    put(&mut bars, score_bar("Artist match:       ", &t.score_breakdown.artist_match));
    put(&mut bars, score_bar("Album match:        ", &t.score_breakdown.album_match));
    put(&mut bars, score_bar("Track number match: ", &t.score_breakdown.track_number_match));
    put_all(&mut lines, bars);
    let mut coverage: String = text::cat4(
        text::dec(coverage_number(r)).as_str(),
        "% (",
        text::count(r.tracks.len()).as_str(),
        "/",
    );
    coverage.append(text::dec(r.total_tracks as u128).as_str());
    coverage.append(")");
    let mut tail: Vec<Line> = nothing();
    put(&mut tail, gap_line());
    put(
        &mut tail,
        pair_line(
            "Alternatives considered: ",
            text::dec(t.alternatives_count as u128).as_str(),
            ink(Color::White),
        ),
    );
    put(&mut tail, pair_line("Release coverage: ", coverage.as_str(), ink(Color::White)));
    put_all(&mut lines, tail);
    lines
}

/// Builds the details of a track without a file.
pub fn unfilled_detail(s: &UnfilledSlotInfo, r: &ReleaseGroup) -> (lines: Vec<Line>)
    ensures
        lines.deep_view() == slot_view(s.deep_view(), r.deep_view()),
{
    let position: String = text::cat4(
        "Disc ",
        text::dec(s.medium_pos as u128).as_str(),
        ", Track ",
        text::dec(s.track_pos as u128).as_str(),
    );
    let mut filled: String = text::cat4(
        text::count(r.tracks.len()).as_str(),
        " of ",
        text::dec(r.total_tracks as u128).as_str(),
        " tracks are filled (",
    );
    filled.append(text::dec(coverage_number(r)).as_str());
    filled.append("% coverage).");
    let mut lines: Vec<Line> = nothing();
    put(&mut lines, Line::one("Unfilled Release Slot", ink(Color::White).bold()));
    put(&mut lines, gap_line());
    put(&mut lines, kv_line("Release:", r.release_title.as_str()));
    put(&mut lines, kv_line("Artist:", r.release_artist.as_str()));
    put(&mut lines, pair_line("Position:  ", position.as_str(), ink(Color::White)));
    put(&mut lines, kv_line("Expected:", s.track_title.as_str()));
    put(&mut lines, kv_line("Recording:", s.recording_id.as_str()));
    put(&mut lines, gap_line());
    put(
        &mut lines,
        Line::one("This track position has no matching corpus file.", ink(Color::DarkGray)),
    );
    put(&mut lines, Line::one(filled.as_str(), ink(Color::DarkGray)));
    lines
}

/// Builds the lines of some ids.
fn id_lines(ids: &Vec<String>) -> (lines: Vec<Line>)
    ensures
        lines.deep_view() == ids.deep_view().map_values(id_row()),
{
    let ghost s = ids.deep_view();
    let mut lines: Vec<Line> = nothing();
    let mut i: usize = 0;
    while i < ids.len()
        invariant
            i <= ids.len(),
            s == ids.deep_view(),
            lines.len() == i,
            forall|k: int| 0 <= k < i ==> (#[trigger] lines[k]).deep_view() == id_row()(s[k]),
        decreases ids.len() - i,
    {
        lines.push(Line::one(text::cat2("  ", ids[i].as_str()).as_str(), ink(Color::White)));
        i = i + 1;
    }
    proof {
        assert(lines.deep_view() =~= s.map_values(id_row()));
    }
    lines
}

/// Builds the details of a file without a release.
pub fn unmatched_detail(u: &UnmatchedEntry) -> (lines: Vec<Line>)
    ensures
        lines.deep_view() == unmatched_view(u.deep_view()),
{
    let mut lines: Vec<Line> = nothing();
    put(&mut lines, Line::one("Unmatched Corpus Track", ink(Color::White).bold()));
    put(&mut lines, gap_line());
    put(&mut lines, kv_line("File:", u.path.as_str()));
    put(&mut lines, gap_line());
    let n: usize = u.data.recording_ids.len();
    let mut why: Vec<Line> = nothing();
    if n > 0 {
        let ending: &str = if n == 1 {
            ""
        } else {
            "s"
        };
        put(
            &mut why,
            Line::one(
                text::cat5(
                    "AcoustID matched ",
                    text::count(n).as_str(),
                    " recording",
                    ending,
                    " but this file was not",
                ).as_str(),
                ink(Color::DarkGray),
            ),
        );
        put(
            &mut why,
            Line::one(
                "assigned to any release during conflict resolution.",
                ink(Color::DarkGray),
            ),
        );
    } else {
        put(
            &mut why,
            Line::one("No AcoustID recording matches found.", ink(Color::DarkGray)),
        );
    }
    put_all(&mut lines, why);
    let mut between: Vec<Line> = nothing();
    put(&mut between, gap_line());
    put_all(&mut lines, between);
    let mut recordings: Vec<Line> = nothing();
    if n != 0 {
        put(&mut recordings, Line::one("Matched recordings:", ink(Color::DarkGray)));
        put_all(&mut recordings, id_lines(&u.data.recording_ids));
    }
    put_all(&mut lines, recordings);
    let mut considered: Vec<Line> = nothing();
    if u.data.considered_release_ids.len() != 0 {
        put(&mut considered, gap_line());
        put(
            &mut considered,
            Line::one(
                text::cat2(
                    "Considered releases: ",
                    text::count(u.data.considered_release_ids.len()).as_str(),
                ).as_str(),
                ink(Color::DarkGray),
            ),
        );
        put_all(&mut considered, id_lines(&u.data.considered_release_ids));
    }
    put_all(&mut lines, considered);
    lines
}

/// The first line of a window that shows the line in hand.
fn scroll_into(cursor: usize, scroll: usize, height: usize) -> (r: usize)
    ensures
        r == into_window(cursor as int, scroll as int, height as int),
{
    let down: usize = if height > 0 && cursor >= scroll && cursor - scroll >= height {
        cursor - height + 1
    } else {
        scroll
    };
    if cursor < down {
        cursor
    } else {
        down
    }
}

impl ReleasePackingBrowserState {
    /// Builds the title of the browser.
    pub fn title_line(&self, name: &str) -> (r: Line)
        ensures
            r.deep_view() == title_view(name@, self@.entries.len()),
    {
        let mut spans: Vec<Span> = nothing();
        put(
            &mut spans,
            Span::styled(text::cat3(" ", name, " ").as_str(), ink(Color::White).bold()),
        );
        put(
            &mut spans,
            Span::styled(
                text::cat3("(", text::count(self.entries.len()).as_str(), " entries)").as_str(),
                ink(Color::DarkGray),
            ),
        );
        Line::of(spans)
    }

    /// Notes where the lines of the left pane are drawn.
    pub fn set_click_targets(&mut self, area: Rect)
        requires
            forall|i: int|
                0 <= i < old(self)@.entries.len() ==> #[trigger] row_below(area.y, i) <= u16::MAX,
        ensures
            final(self)@ == old(self)@.drawn_in(area),
    {
        if area.height < 2 || area.width < 10 {
            return;
        }
        let ghost want = click_rows(self.entries@.len(), area).rows;
        let n: usize = self.entries.len();
        let mut rows: Vec<(String, u16)> = nothing();
        let mut i: usize = 0;
        while i < n
            invariant
                i <= n,
                n == self.entries@.len(),
                self@ == old(self)@,
                want == click_rows(n as nat, area).rows,
                forall|k: int|
                    0 <= k < old(self)@.entries.len() ==> #[trigger] row_below(area.y, k)
                        <= u16::MAX,
                rows.len() == i,
                forall|k: int| 0 <= k < i ==> (#[trigger] rows[k]).deep_view() == want[k],
            decreases n - i,
        {
            proof {
                assert(row_below(area.y, i as int) <= u16::MAX);
            }
            let below: u16 = (i % 0x1_0000) as u16;
            let row: (String, u16) = (text::count(i), area.y + below);
            proof {
                assert(row.deep_view() == want[i as int]);
            }
            rows.push(row);
            i = i + 1;
        }
        proof {
            assert(rows.deep_view() =~= want);
        }
        self.click_targets = ListClickTargets { list_area: Some(area), rows };
    }

    /// Builds the lines of the left pane in a window, and scrolls it to the line
    /// in hand.
    pub fn left_pane(&mut self, width: usize, height: usize) -> (r: Vec<Line>)
        requires
            entries_valid(old(self)@),
        ensures
            final(self)@ == (PackingModel {
                scroll: into_window(
                    old(self)@.cursor as int,
                    old(self)@.scroll as int,
                    height as int,
                ) as usize,
                ..old(self)@
            }),
            r.deep_view() == window(
                left_entries(old(self)@, width as nat),
                final(self)@.scroll as nat,
                height as nat,
            ),
    {
        let room: usize = if width < 10 {
            0
        } else {
            width - 10
        };
        let focused: bool = self.focused_pane == FocusedPane::LeftPane;
        let mut lines: Vec<Line> = nothing();
        let mut i: usize = 0;
        while i < self.entries.len()
            invariant
                i <= self.entries.len(),
                self@ == old(self)@,
                entries_valid(self@),
                room == title_room(width as nat),
                focused == (self@.focused_pane == FocusedPane::LeftPane),
                lines.len() == i,
                forall|k: int|
                    0 <= k < i ==> (#[trigger] lines[k]).deep_view() == left_entry(
                        self@,
                        k,
                        width as nat,
                    ),
            decreases self.entries.len() - i,
        {
            let selected: bool = focused && self.cursor == i;
            proof {
                assert(self@.entries[i as int] == self.entries[i as int]);
            }
            let l: Line = match self.entries[i] {
                PackingListEntry::Release { idx } => release_line(
                    &self.releases[idx],
                    selected,
                    self.category,
                    room,
                ),
                PackingListEntry::Unmatched { idx } => {
                    let style: Style = lit_style(selected, Color::DarkGray);
                    let mut spans: Vec<Span> = nothing();
                    put(&mut spans, Span::styled(mark(selected), style));
                    put(
                        &mut spans,
                        Span::styled(
                            text::truncate_for_width(
                                tail_of(self.unmatched[idx].path.as_str()),
                                room,
                            ).as_str(),
                            style,
                        ),
                    );
                    Line::of(spans)
                },
            };
            lines.push(l);
            i = i + 1;
        }
        proof {
            assert(lines.deep_view() =~= left_entries(self@, width as nat));
        }
        self.scroll = scroll_into(self.cursor, self.scroll, height);
        visible(lines, self.scroll, height)
    }

    /// Builds the lines of the tracks of the release in hand in a window, holds
    /// the track in hand to them, and scrolls to it.
    pub fn release_tracks(&mut self, idx: usize, height: usize) -> (r: Vec<Line>)
        requires
            idx < old(self)@.releases.len(),
            old(self)@.wf(),
        ensures
            final(self)@ == tracks_drawn(old(self)@, idx as int, height as nat),
            r.deep_view() == tracks_shown(old(self)@, idx as int, height as nat),
    {
        let focused: bool = self.focused_pane == FocusedPane::MiddlePane;
        let cursor: usize = self.track_cursor;
        let release: &ReleaseGroup = &self.releases[idx];
        let ghost m = release.deep_view();
        let ghost ts = release.tracks.deep_view();
        let ghost us = release.unfilled.deep_view();
        let mut lines: Vec<Line> = nothing();
        let mut i: usize = 0;
        while i < release.tracks.len()
            invariant
                i <= release.tracks.len(),
                ts == release.tracks.deep_view(),
                lines.len() == i,
                forall|k: int|
                    0 <= k < i ==> (#[trigger] lines[k]).deep_view() == track_row(
                        ts[k],
                        focused && cursor == k,
                    ),
            decreases release.tracks.len() - i,
        {
            let t: &AssignedTrackInfo = &release.tracks[i];
            let selected: bool = focused && cursor == i;
            let style: Style = lit_style(selected, Color::White);
            let mut spans: Vec<Span> = nothing();
            put(&mut spans, Span::styled(mark(selected), style));
            put(
                &mut spans,
                Span::styled(
                    text::cat2(text::pad_left(t.track_number.as_str(), 2).as_str(), " ").as_str(),
                    ink(Color::DarkGray),
                ),
            );
            put(
                &mut spans,
                Span::styled(
                    text::truncate_for_width(tail_of(t.path.as_str()), 30).as_str(),
                    style,
                ),
            );
            put(
                &mut spans,
                Span::styled(text::cat2("  ", t.score.0.as_str()).as_str(), ink(Color::Yellow)),
            );
            lines.push(Line::of(spans));
            i = i + 1;
        }
        proof {
            assert(lines.deep_view() =~= Seq::new(
                ts.len(),
                |i: int| track_row(ts[i], focused && cursor == i),
            ));
        }
        let ghost upper = lines.deep_view();
        let mut rows: Vec<Line> = nothing();
        let mut k: usize = 0;
        while k < release.unfilled.len()
            invariant
                k <= release.unfilled.len(),
                us == release.unfilled.deep_view(),
                ts.len() == release.tracks.len(),
                release.tracks.len() + release.unfilled.len() <= usize::MAX,
                rows.len() == k,
                forall|j: int|
                    0 <= j < k ==> (#[trigger] rows[j]).deep_view() == slot_row(
                        us[j],
                        focused && cursor == ts.len() + j,
                    ),
            decreases release.unfilled.len() - k,
        {
            let s: &UnfilledSlotInfo = &release.unfilled[k];
            let selected: bool = focused && cursor == release.tracks.len() + k;
            let mut spans: Vec<Span> = nothing();
            put(&mut spans, Span::styled(mark(selected), lit_style(selected, Color::Red)));
            put(
                &mut spans,
                Span::styled(
                    text::cat2(
                        text::pad_left(text::dec(s.track_pos as u128).as_str(), 2).as_str(),
                        " ",
                    ).as_str(),
                    ink(Color::DarkGray),
                ),
            );
            put(&mut spans, Span::styled("░ ", ink(Color::Red)));
            put(
                &mut spans,
                Span::styled(
                    text::truncate_for_width(s.track_title.as_str(), 28).as_str(),
                    ink(Color::DarkGray).italic(),
                ),
            );
            put(&mut spans, Span::styled("  ----", ink(Color::DarkGray)));
            rows.push(Line::of(spans));
            k = k + 1;
        }
        let n: usize = release.tracks.len() + release.unfilled.len();
        put_all(&mut lines, rows);
        proof {
            assert(lines.deep_view() =~= release_rows(m, focused, cursor));
        }
        if n > 0 && self.track_cursor >= n {
            self.track_cursor = n - 1;
        }
        self.track_scroll = scroll_into(self.track_cursor, self.track_scroll, height);
        visible(lines, self.track_scroll, height)
    }

    /// Builds all the details of what is in hand.
    fn details(&self) -> (r: Vec<Line>)
        requires
            entries_valid(self@),
            self@.wf(),
        ensures
            r.deep_view() == details_view(self@),
    {
        let entry: Option<PackingListEntry> = self.selected_entry();
        proof {
            if self@.cursor < self@.entries.len() {
                assert(entry == Some(self@.entries[self@.cursor as int]));
            }
        }
        match entry {
            Some(PackingListEntry::Release { idx }) => {
                let release: &ReleaseGroup = &self.releases[idx];
                let ghost m = self@.releases[idx as int];
                proof {
                    assert(release.deep_view() == m);
                }
                if self.focused_pane == FocusedPane::LeftPane {
                    release_overview(release, self.category)
                } else {
                    let c: usize = self.track_cursor;
                    let n: usize = release.tracks.len();
                    if c < n {
                        track_detail(&release.tracks[c], release)
                    } else if c < n + release.unfilled.len() {
                        unfilled_detail(&release.unfilled[c - n], release)
                    } else {
                        release_summary(release, self.category)
                    }
                }
            },
            Some(PackingListEntry::Unmatched { idx }) => unmatched_detail(&self.unmatched[idx]),
            None => {
                let mut lines: Vec<Line> = nothing();
                put(&mut lines, Line::one("No selection", ink(Color::DarkGray)));
                lines
            },
        }
    }

    /// Builds the middle pane in a window.
    pub fn tracks_pane(&mut self, height: usize) -> (r: Vec<Line>)
        requires
            entries_valid(old(self)@),
            old(self)@.wf(),
        ensures
            (final(self)@, r.deep_view()) == middle_pane(old(self)@, height as nat),
    {
        let entry: Option<PackingListEntry> = self.selected_entry();
        proof {
            if self@.cursor < self@.entries.len() {
                assert(entry == Some(self@.entries[self@.cursor as int]));
            }
        }
        match entry {
            Some(PackingListEntry::Release { idx }) => self.release_tracks(idx, height),
            Some(PackingListEntry::Unmatched { idx }) => visible(
                unmatched_detail(&self.unmatched[idx]),
                0,
                height,
            ),
            None => {
                let mut lines: Vec<Line> = nothing();
                put(&mut lines, Line::one("No entries", ink(Color::DarkGray)));
                lines
            },
        }
    }

    /// Builds the details of what is in hand in a window, and holds the
    /// scrolling to them.
    pub fn detail_pane(&mut self, height: usize) -> (r: Vec<Line>)
        requires
            entries_valid(old(self)@),
            old(self)@.wf(),
        ensures
            r.deep_view() == window(
                details_view(old(self)@),
                old(self)@.detail_scroll as nat,
                height as nat,
            ),
            final(self)@ == (PackingModel {
                detail_scroll: held_scroll(
                    details_view(old(self)@).len(),
                    old(self)@.detail_scroll,
                    height as nat,
                ),
                ..old(self)@
            }),
    {
        let lines: Vec<Line> = self.details();
        let total: usize = lines.len();
        let shown: Vec<Line> = visible(lines, self.detail_scroll, height);
        if total > height {
            if self.detail_scroll > total - height {
                self.detail_scroll = total - height;
            }
        } else {
            self.detail_scroll = 0;
        }
        shown
    }

    /// Builds the lines of the overlay in which an id is typed.
    pub fn pin_overlay(&self) -> (r: Option<Vec<Line>>)
        requires
            self@.wf(),
        ensures
            r.deep_view() == (match self@.pin_input {
                Some(t) => Some(pin_view(t, self@.pin_error)),
                None => None,
            }),
    {
        match &self.pin_input {
            None => None,
            Some(input) => {
                let (before, under, after) = input.cursor_splits();
                let mut spans: Vec<Span> = nothing();
                put(&mut spans, Span::styled("Release ID: ", ink(Color::DarkGray)));
                put(&mut spans, Span::styled(before.as_str(), ink(Color::White)));
                put(
                    &mut spans,
                    Span::styled(under.as_str(), ink(Color::Black).bg(Color::White)),
                );
                put(&mut spans, Span::styled(after.as_str(), ink(Color::White)));
                let mut lines: Vec<Line> = nothing();
                put(&mut lines, Line::of(spans));
                if let Some(e) = &self.pin_error {
                    put(&mut lines, Line::one(e.as_str(), ink(Color::Red)));
                }
                put(&mut lines, gap_line());
                Some(lines)
            },
        }
    }
}

// ---------------------------------------------------------------------------
// Laws
// ---------------------------------------------------------------------------

/// The line in hand is in the window that is shown.
pub proof fn law_line_in_hand_is_shown(cursor: int, scroll: int, height: int)
    requires
        0 <= cursor,
        0 <= scroll,
        height > 0,
    ensures
        into_window(cursor, scroll, height) <= cursor < into_window(cursor, scroll, height) + height,
{
}

/// A release that was probably packed by mistake never looks healthy.
pub proof fn law_low_confidence_is_never_green(r: ReleaseModel)
    ensures
        coverage_ink(r, PackingCategory::LowConfidence) != Color::Green,
{
}

/// A release of fewer than 16,777,216 tracks is green exactly where every
/// track has a file.
pub proof fn law_green_is_complete(r: ReleaseModel, category: PackingCategory)
    requires
        category != PackingCategory::LowConfidence,
        r.assigned_count < 0x100_0000,
        r.total_tracks < 0x100_0000,
    ensures
        coverage_ink(r, category) == Color::Green <==> r.total_tracks > 0 && r.assigned_count
            >= r.total_tracks,
{
    law_ratio_of_same(10);
    law_whole_numbers_follow(0, 0, 1);
    if r.total_tracks > 0 {
        law_full_share(r.assigned_count as nat, r.total_tracks as nat);
    } else {
        law_share_follows_part(0, 1, 1);
        assert(one() > 0) by {
            vstd::arithmetic::power2::lemma_pow2_pos(256);
        }
    }
}

/// A coverage of all tracks is a hundred percent, of none zero, and of some no
/// more than a hundred.
pub proof fn law_percent_bounds(r: ReleaseModel)
    requires
        r.total_tracks > 0,
    ensures
        r.assigned_count <= r.total_tracks ==> coverage_percent(r) <= 100,
        r.assigned_count == r.total_tracks ==> coverage_percent(r) == 100,
        r.assigned_count == 0 ==> coverage_percent(r) == 0,
{
    let part = r.assigned_count as nat;
    let whole = r.total_tracks as nat;
    law_share_follows_part(0, 0, whole);
    law_product_follows_share(0, 0, 100);
    law_whole_numbers_follow(0, 0, 0);
    assert(0 * one() == 0);
    law_whole_numbers_follow(0, 0, 100);
    if part <= whole {
        law_share_follows_part(part, whole, whole);
        law_product_follows_share(share(part, whole), one(), 100);
        law_whole_numbers_follow(product(share(part, whole), ratio(100, 1)), 100 * one(), 100);
    }
}

} // verus!
