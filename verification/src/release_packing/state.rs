//! The browser: how it is built, and how it answers input.

use vstd::prelude::*;

use crate::corpus::copy_text;
use crate::input::InputAction;
use crate::lists::{chosen, lemma_picked_start, lemma_picked_step, picked};
use crate::ordering::{in_order, is_ordered, law_in_order, ranks, sorted, Ranked};
use crate::release_packing::types::{AlternativeDataModel, AlternativeModel, AlternativeReleaseInfo, AlternativeReleasePackingData, AssignedTrackInfo, FocusedPane, LowConfidenceReason, OverrideDataModel, OverrideModel, PackedModel, PackedReleaseData, PackingCategory, PackingListEntry, PackingRow, PackingRowModel, ReasonModel, ReleaseGroup, ReleaseModel, SlotModel, TrackInfoModel, UnfilledDataModel, UnfilledReleaseSlotData, UnfilledSlotInfo, UnmatchedEntry, UnmatchedModel, VaOverrideInfo, VariousArtistsOverrideData, VariousArtistsOverrideSource};
use crate::screen::{nothing, put, Rect};
use crate::text::{self, ascii_small, begins_with, decimal, trimmed};
use crate::text_input::{TextInputModel, TextInputState};

verus! {

// ---------------------------------------------------------------------------
// Releases
// ---------------------------------------------------------------------------

/// The condition of being a file of a release.
pub open spec fn row_of(id: Seq<char>) -> spec_fn(PackingRowModel) -> bool {
    |r: PackingRowModel| r.release_id == id
}

/// A file at its track.
pub open spec fn as_track() -> spec_fn(PackingRowModel) -> TrackInfoModel {
    |r: PackingRowModel|
        TrackInfoModel {
            path: r.path,
            track_number: r.track_number,
            track_title: r.track_title,
            medium_position: r.medium_position,
            track_position: r.track_position,
            medium_format: r.medium_format,
            recording_id: r.recording_id,
            score: r.score,
            score_breakdown: r.score_breakdown,
            alternatives_count: r.alternatives_count,
        }
}

/// The condition of being a gap of a release.
pub open spec fn slot_of(id: Seq<char>) -> spec_fn(UnfilledDataModel) -> bool {
    |s: UnfilledDataModel| s.release_id == id
}

/// A gap.
pub open spec fn as_slot() -> spec_fn(UnfilledDataModel) -> SlotModel {
    |s: UnfilledDataModel|
        SlotModel {
            medium_pos: s.medium_pos,
            track_pos: s.track_pos,
            track_title: s.track_title,
            recording_id: s.recording_id,
        }
}

/// The condition of having lost to a release.
pub open spec fn lost_to(id: Seq<char>) -> spec_fn(AlternativeDataModel) -> bool {
    |a: AlternativeDataModel| a.winner_release_id == id
}

/// A release that lost.
pub open spec fn as_alternative() -> spec_fn(AlternativeDataModel) -> AlternativeModel {
    |a: AlternativeDataModel|
        AlternativeModel {
            release_id: a.alternative_release_id,
            release_title: a.alternative_release_title,
            release_artist: a.alternative_release_artist,
            score_order: a.score_order,
            alternative_score: a.alternative_score,
            winner_score: a.winner_score,
            inode_count: a.inode_count,
        }
}

/// The condition of being about a release.
pub open spec fn override_of(id: Seq<char>) -> spec_fn(OverrideDataModel) -> bool {
    |v: OverrideDataModel| v.release_id == id
}

/// Another artist, with where it comes from in words.
pub open spec fn as_override() -> spec_fn(OverrideDataModel) -> OverrideModel {
    |v: OverrideDataModel|
        OverrideModel {
            suggested_artist: v.suggested_artist,
            source: match v.source {
                VariousArtistsOverrideSource::ExactAlternative => "exact alternative"@,
                VariousArtistsOverrideSource::CompetingProposal => "competing proposal"@,
            },
        }
}

/// Whether tracks stand in order.
pub open spec fn by_track() -> spec_fn(TrackInfoModel, TrackInfoModel) -> bool {
    |a: TrackInfoModel, b: TrackInfoModel| AssignedTrackInfo::precedes(a, b)
}

/// Whether gaps stand in order.
pub open spec fn by_slot() -> spec_fn(SlotModel, SlotModel) -> bool {
    |a: SlotModel, b: SlotModel| UnfilledSlotInfo::precedes(a, b)
}

/// Whether alternatives stand in order.
pub open spec fn by_score() -> spec_fn(AlternativeModel, AlternativeModel) -> bool {
    |a: AlternativeModel, b: AlternativeModel| AlternativeReleaseInfo::precedes(a, b)
}

/// Whether releases stand in order.
pub open spec fn by_coverage() -> spec_fn(ReleaseModel, ReleaseModel) -> bool {
    |a: ReleaseModel, b: ReleaseModel| ReleaseGroup::precedes(a, b)
}

/// The last of some items, if there is one.
pub open spec fn last_of<T>(s: Seq<T>) -> Option<T> {
    if s.len() == 0 {
        None
    } else {
        Some(s.last())
    }
}

/// Everything that packing found.
pub struct Findings {
    pub packed: Seq<PackedModel>,
    pub rows: Seq<PackingRowModel>,
    pub slots: Seq<UnfilledDataModel>,
    pub alternatives: Seq<AlternativeDataModel>,
    pub overrides: Seq<OverrideDataModel>,
}

impl Findings {
    /// Whether a release was packed before the one at a place, under the same
    /// id.
    pub open spec fn repeated(self, i: int) -> bool {
        exists|j: int|
            0 <= j < i && (#[trigger] self.packed[j]).release_id == self.packed[i].release_id
    }

    /// The release at a place with what belongs to it. What belongs to an id
    /// goes to the first release that has it.
    pub open spec fn release(self, i: int) -> ReleaseModel {
        let p = self.packed[i];
        let first = !self.repeated(i);
        ReleaseModel {
            release_id: p.release_id,
            release_title: p.release_title,
            release_artist: p.release_artist,
            tracks: if first {
                in_order(picked(self.rows, row_of(p.release_id), as_track()), by_track())
            } else {
                Seq::empty()
            },
            unfilled: if first {
                in_order(picked(self.slots, slot_of(p.release_id), as_slot()), by_slot())
            } else {
                Seq::empty()
            },
            assigned_count: p.assigned_count,
            total_tracks: p.total_tracks,
            alternatives: if first {
                in_order(
                    picked(self.alternatives, lost_to(p.release_id), as_alternative()),
                    by_score(),
                )
            } else {
                Seq::empty()
            },
            va_override: if first {
                last_of(picked(self.overrides, override_of(p.release_id), as_override()))
            } else {
                None
            },
            low_confidence_reason: match (
                p.low_confidence_acoustid_ratio,
                p.low_confidence_avg_album_match,
            ) {
                (Some(a), Some(b)) => Some(ReasonModel { acoustid_ratio: a, avg_album_match: b }),
                _ => None,
            },
        }
    }

    /// All releases, as they were packed.
    pub open spec fn unsorted(self) -> Seq<ReleaseModel> {
        Seq::new(self.packed.len(), |i: int| self.release(i))
    }

    /// All releases, the best covered first.
    pub open spec fn releases(self) -> Seq<ReleaseModel> {
        in_order(self.unsorted(), by_coverage())
    }
}

// ---------------------------------------------------------------------------
// The browser
// ---------------------------------------------------------------------------

/// What the browser asks for.
#[derive(Debug)]
pub enum ReleasePackingBrowserAction {
    /// Nothing
    Nothing,
    /// Close
    Cancel,
    /// Hold some files to a release
    PinRelease { release_id: String, track_paths: Vec<String> },
}

/// The model of a [`ReleasePackingBrowserAction`].
pub enum PackingAnswer {
    Nothing,
    Cancel,
    PinRelease { release_id: Seq<char>, track_paths: Seq<Seq<char>> },
}

impl DeepView for ReleasePackingBrowserAction {
    type V = PackingAnswer;

    open spec fn deep_view(&self) -> PackingAnswer {
        match self {
            ReleasePackingBrowserAction::Nothing => PackingAnswer::Nothing,
            ReleasePackingBrowserAction::Cancel => PackingAnswer::Cancel,
            ReleasePackingBrowserAction::PinRelease { release_id, track_paths } => PackingAnswer::PinRelease {
                release_id: release_id@,
                track_paths: track_paths.deep_view(),
            },
        }
    }
}

/// Where the lines of a list were drawn, to find the one that is clicked.
#[derive(Debug)]
pub struct ListClickTargets {
    /// Where the list was drawn
    pub list_area: Option<Rect>,
    /// The lines by their number in the list, and the row of each
    pub rows: Vec<(String, u16)>,
}

/// The model of a [`ListClickTargets`].
pub struct ClickTargetsModel {
    pub list_area: Option<Rect>,
    pub rows: Seq<(Seq<char>, u16)>,
}

impl DeepView for ListClickTargets {
    type V = ClickTargetsModel;

    open spec fn deep_view(&self) -> ClickTargetsModel {
        ClickTargetsModel { list_area: self.list_area, rows: self.rows.deep_view() }
    }
}

/// The row of a line, counted from the top of a list.
pub open spec fn row_below(top: u16, i: int) -> int {
    top + i % 0x1_0000
}

/// Where the lines of a list are drawn.
pub open spec fn click_rows(entries: nat, area: Rect) -> ClickTargetsModel {
    ClickTargetsModel {
        list_area: Some(area),
        rows: Seq::new(
            entries,
            |i: int| (decimal(i as nat), row_below(area.y, i) as u16),
        ),
    }
}

/// The browser.
#[derive(Debug)]
pub struct ReleasePackingBrowserState {
    /// The kind of results that is shown
    pub category: PackingCategory,
    /// The lines of the left pane
    pub entries: Vec<PackingListEntry>,
    /// The line in hand
    pub cursor: usize,
    /// The first line that is shown
    pub scroll: usize,
    /// The track in hand
    pub track_cursor: usize,
    /// The first track that is shown
    pub track_scroll: usize,
    /// The first line of the details that is shown
    pub detail_scroll: usize,
    /// The pane that has the focus
    pub focused_pane: FocusedPane,
    /// Where the lines of the left pane were drawn
    pub click_targets: ListClickTargets,
    /// The id to pin to, while it is typed
    pub pin_input: Option<TextInputState>,
    /// What is wrong with it
    pub pin_error: Option<String>,
    /// The releases that were pinned since the browser was opened
    pub pinned_release_ids: Vec<String>,
    /// The releases
    pub releases: Vec<ReleaseGroup>,
    /// The files without a release
    pub unmatched: Vec<UnmatchedEntry>,
}

/// The model of a [`ReleasePackingBrowserState`].
pub struct PackingModel {
    pub category: PackingCategory,
    pub entries: Seq<PackingListEntry>,
    pub cursor: usize,
    pub scroll: usize,
    pub track_cursor: usize,
    pub track_scroll: usize,
    pub detail_scroll: usize,
    pub focused_pane: FocusedPane,
    pub click_targets: ClickTargetsModel,
    pub pin_input: Option<TextInputModel>,
    pub pin_error: Option<Seq<char>>,
    pub pinned_release_ids: Seq<Seq<char>>,
    pub releases: Seq<ReleaseModel>,
    pub unmatched: Seq<UnmatchedModel>,
}

impl View for ReleasePackingBrowserState {
    type V = PackingModel;

    open spec fn view(&self) -> PackingModel {
        PackingModel {
            category: self.category,
            entries: self.entries@,
            cursor: self.cursor,
            scroll: self.scroll,
            track_cursor: self.track_cursor,
            track_scroll: self.track_scroll,
            detail_scroll: self.detail_scroll,
            focused_pane: self.focused_pane,
            pin_input: match self.pin_input {
                Some(t) => Some(t@),
                None => None,
            },
            pin_error: self.pin_error.deep_view(),
            click_targets: self.click_targets.deep_view(),
            pinned_release_ids: self.pinned_release_ids.deep_view(),
            releases: self.releases.deep_view(),
            unmatched: self.unmatched.deep_view(),
        }
    }
}

/// Whether a character is a hexadecimal digit.
#[verifier::allow_in_spec]
pub fn is_hex(c: char) -> bool
    returns
        (('0' <= c && c <= '9') || ('a' <= c && c <= 'f') || ('A' <= c && c <= 'F')),
{
    ('0' <= c && c <= '9') || ('a' <= c && c <= 'f') || ('A' <= c && c <= 'F')
}

/// The condition of being a hexadecimal digit.
pub open spec fn hex_digit() -> spec_fn(char) -> bool {
    |c: char| is_hex(c)
}

/// A letter made small.
pub open spec fn made_small() -> spec_fn(char) -> char {
    |c: char| ascii_small(c)
}

/// Whether a character is a hexadecimal digit without capitals.
pub open spec fn small_hex(c: char) -> bool {
    ('0' <= c && c <= '9') || ('a' <= c && c <= 'f')
}

/// A text without the address of a release page before it.
pub open spec fn without_address(s: Seq<char>) -> Seq<char> {
    if begins_with(s, "https://musicbrainz.org/release/"@) {
        s.skip("https://musicbrainz.org/release/"@.len() as int)
    } else if begins_with(s, "http://musicbrainz.org/release/"@) {
        s.skip("http://musicbrainz.org/release/"@.len() as int)
    } else {
        s
    }
}

/// The first part of a sequence.
pub open spec fn at_most<T>(s: Seq<T>, n: nat) -> Seq<T> {
    if s.len() <= n {
        s
    } else {
        s.take(n as int)
    }
}

/// The digits of a pasted id: what is left of it without its address and
/// without anything but hexadecimal digits, up to thirty-two.
pub open spec fn pasted_hex(s: Seq<char>) -> Seq<char> {
    at_most(picked(without_address(trimmed(s)), hex_digit(), made_small()), 32)
}

/// Thirty-two digits in the form of an id.
pub open spec fn uuid(hex: Seq<char>) -> Seq<char> {
    hex.subrange(0, 8) + "-"@ + hex.subrange(8, 12) + "-"@ + hex.subrange(12, 16) + "-"@
        + hex.subrange(16, 20) + "-"@ + hex.subrange(20, 32)
}

/// The path of a track.
pub open spec fn track_path() -> spec_fn(TrackInfoModel) -> Seq<char> {
    |t: TrackInfoModel| t.path
}

/// Whether a text field holds at most thirty-two small hexadecimal digits.
pub open spec fn holds_hex(t: TextInputModel) -> bool {
    &&& t.wf()
    &&& t.value.len() <= 32
    &&& forall|i: int| 0 <= i < t.value.len() ==> small_hex(#[trigger] t.value[i])
}

impl PackingModel {
    /// The browser is in order: what is typed of an id are digits, and the
    /// tracks and gaps of each release can be counted.
    pub open spec fn wf(self) -> bool {
        &&& self.pin_input is Some ==> holds_hex(self.pin_input->0)
        &&& forall|i: int|
            0 <= i < self.releases.len() ==> (#[trigger] self.releases[i]).tracks.len()
                + self.releases[i].unfilled.len() <= usize::MAX
    }

    /// The browser as it opens.
    pub open spec fn opened(
        category: PackingCategory,
        releases: Seq<ReleaseModel>,
        unmatched: Seq<UnmatchedModel>,
    ) -> Self {
        PackingModel {
            category,
            entries: listed(category, releases.len(), unmatched.len()),
            cursor: 0,
            scroll: 0,
            track_cursor: 0,
            track_scroll: 0,
            detail_scroll: 0,
            focused_pane: FocusedPane::LeftPane,
            pin_input: None,
            pin_error: None,
            click_targets: ClickTargetsModel { list_area: None, rows: Seq::empty() },
            pinned_release_ids: Seq::empty(),
            releases,
            unmatched,
        }
    }

    /// The lines of the left pane drawn in an area. One that is too small shows
    /// none of them.
    pub open spec fn drawn_in(self, area: Rect) -> Self {
        if area.height < 2 || area.width < 10 {
            self
        } else {
            PackingModel { click_targets: click_rows(self.entries.len(), area), ..self }
        }
    }

    /// The line in hand.
    pub open spec fn entry(self) -> Option<PackingListEntry> {
        if self.cursor < self.entries.len() {
            Some(self.entries[self.cursor as int])
        } else {
            None
        }
    }

    /// The release in hand.
    pub open spec fn release(self) -> Option<ReleaseModel> {
        match self.entry() {
            Some(PackingListEntry::Release { idx }) => if idx < self.releases.len() {
                Some(self.releases[idx as int])
            } else {
                None
            },
            _ => None,
        }
    }

    /// How many tracks and gaps the release in hand has.
    pub open spec fn item_count(self) -> nat {
        match self.release() {
            Some(r) => r.tracks.len() + r.unfilled.len(),
            None => 0,
        }
    }

    /// The typing of an id ended.
    pub open spec fn unpinned(self) -> Self {
        PackingModel { pin_input: None, pin_error: None, ..self }
    }

    /// The id as typed changed, which clears what was wrong with it.
    pub open spec fn pin_typed(self, t: TextInputModel) -> Self {
        PackingModel { pin_input: Some(t), pin_error: None, ..self }
    }

    /// The typing of an id started.
    pub open spec fn pinning(self) -> Self {
        self.pin_typed(TextInputModel::empty())
    }

    /// An input while an id is typed.
    pub open spec fn step_pin(self, action: InputAction) -> (Self, PackingAnswer) {
        let nothing = PackingAnswer::Nothing;
        let t = self.pin_input->0;
        match action {
            InputAction::Confirm => if t.value.len() != 32 {
                (
                    PackingModel {
                        pin_error: Some(
                            "Need 32 hex characters (have "@ + decimal(t.value.len()) + ")"@,
                        ),
                        ..self
                    },
                    nothing,
                )
            } else {
                (
                    self.unpinned(),
                    PackingAnswer::PinRelease {
                        release_id: uuid(t.value),
                        track_paths: match self.release() {
                            Some(r) => r.tracks.map_values(track_path()),
                            None => Seq::empty(),
                        },
                    },
                )
            },
            InputAction::Cancel => (self.unpinned(), nothing),
            InputAction::Char(c) => (
                if !is_hex(c) {
                    self
                } else if t.value.len() < 32 {
                    self.pin_typed(t.insert(seq![ascii_small(c)]))
                } else {
                    self.pin_typed(t)
                },
                nothing,
            ),
            InputAction::Paste(s) => (
                self.pin_typed(t.with_value(Seq::empty()).insert(pasted_hex(s@))),
                nothing,
            ),
            InputAction::Backspace
            | InputAction::Delete
            | InputAction::NavLeft
            | InputAction::NavRight
            | InputAction::Home
            | InputAction::End
            | InputAction::TextHome
            | InputAction::TextEnd
            | InputAction::WordLeft
            | InputAction::WordRight
            | InputAction::KillToStart
            | InputAction::KillToEnd => (self.pin_typed(t.step(action)), nothing),
            _ => (self, nothing),
        }
    }

    /// Another line in hand, at its first track.
    pub open spec fn at_entry(self, i: usize) -> Self {
        PackingModel { cursor: i, track_cursor: 0, track_scroll: 0, detail_scroll: 0, ..self }
    }

    /// Another track in hand, with its details from the top.
    pub open spec fn at_track(self, i: usize) -> Self {
        PackingModel { track_cursor: i, detail_scroll: 0, ..self }
    }

    /// Another pane with the focus.
    pub open spec fn focus(self, pane: FocusedPane) -> Self {
        PackingModel { focused_pane: pane, ..self }
    }

    /// An input while the left pane has the focus.
    pub open spec fn step_left(self, action: InputAction) -> (Self, PackingAnswer) {
        let nothing = PackingAnswer::Nothing;
        match action {
            InputAction::NavUp => (
                self.at_entry(
                    if self.cursor > 0 {
                        (self.cursor - 1) as usize
                    } else {
                        self.cursor
                    },
                ),
                nothing,
            ),
            InputAction::NavDown => (
                self.at_entry(
                    if self.cursor + 1 < self.entries.len() {
                        (self.cursor + 1) as usize
                    } else {
                        self.cursor
                    },
                ),
                nothing,
            ),
            InputAction::NavRight | InputAction::FocusRight => (
                self.focus(FocusedPane::MiddlePane),
                nothing,
            ),
            InputAction::Home => (self.at_entry(0), nothing),
            InputAction::End => (
                self.at_entry(
                    if self.entries.len() > 0 {
                        (self.entries.len() - 1) as usize
                    } else {
                        self.cursor
                    },
                ),
                nothing,
            ),
            InputAction::Char(c) => (
                if c == 'p' && self.release() is Some {
                    self.pinning()
                } else {
                    self
                },
                nothing,
            ),
            InputAction::Cancel => (self, PackingAnswer::Cancel),
            _ => (self, nothing),
        }
    }

    /// An input while the tracks have the focus.
    pub open spec fn step_middle(self, action: InputAction) -> (Self, PackingAnswer) {
        let nothing = PackingAnswer::Nothing;
        let n = self.item_count();
        match action {
            InputAction::NavUp => (
                if self.track_cursor > 0 {
                    self.at_track((self.track_cursor - 1) as usize)
                } else {
                    self
                },
                nothing,
            ),
            InputAction::NavDown => (
                if self.track_cursor + 1 < n {
                    self.at_track((self.track_cursor + 1) as usize)
                } else {
                    self
                },
                nothing,
            ),
            InputAction::NavLeft | InputAction::FocusLeft => (
                self.focus(FocusedPane::LeftPane),
                nothing,
            ),
            InputAction::FocusRight => (
                PackingModel { focused_pane: FocusedPane::DetailPane, detail_scroll: 0, ..self },
                nothing,
            ),
            InputAction::Home => (self.at_track(0), nothing),
            InputAction::End => (
                self.at_track(
                    if n > 0 {
                        (n - 1) as usize
                    } else {
                        self.track_cursor
                    },
                ),
                nothing,
            ),
            InputAction::Char(c) => (
                if c == 'p' && self.release() is Some {
                    self.pinning()
                } else {
                    self
                },
                nothing,
            ),
            InputAction::Cancel => (self, PackingAnswer::Cancel),
            _ => (self, nothing),
        }
    }

    /// The details from another line on.
    pub open spec fn details_from(self, i: int) -> Self {
        PackingModel {
            detail_scroll: if i < 0 {
                0
            } else {
                i as usize
            },
            ..self
        }
    }

    /// An input while the details have the focus.
    pub open spec fn step_detail(self, action: InputAction) -> (Self, PackingAnswer) {
        let nothing = PackingAnswer::Nothing;
        match action {
            InputAction::NavUp => (self.details_from(self.detail_scroll - 1), nothing),
            InputAction::NavDown => (self.details_from(self.detail_scroll + 1), nothing),
            InputAction::PageUp => (self.details_from(self.detail_scroll - 20), nothing),
            InputAction::PageDown => (self.details_from(self.detail_scroll + 20), nothing),
            InputAction::Home => (self.details_from(0), nothing),
            InputAction::End => (self.details_from(usize::MAX as int / 2), nothing),
            InputAction::NavLeft | InputAction::FocusLeft => (
                self.focus(FocusedPane::MiddlePane),
                nothing,
            ),
            InputAction::Cancel => (self, PackingAnswer::Cancel),
            _ => (self, nothing),
        }
    }

    /// The browser after an input, and what it asks for.
    pub open spec fn step(self, action: InputAction) -> (Self, PackingAnswer) {
        if self.pin_input is Some {
            self.step_pin(action)
        } else {
            match self.focused_pane {
                FocusedPane::LeftPane => self.step_left(action),
                FocusedPane::MiddlePane => self.step_middle(action),
                FocusedPane::DetailPane => self.step_detail(action),
            }
        }
    }
}

/// Whether a kind of results are releases.
pub open spec fn lists_releases(category: PackingCategory) -> bool {
    category == PackingCategory::Perfect || category == PackingCategory::FullMatches || category
        == PackingCategory::Singles || category == PackingCategory::Incomplete || category
        == PackingCategory::LowConfidence
}

/// The lines of the left pane: the releases, or the files without one. Knots
/// have a browser of their own.
pub open spec fn listed(category: PackingCategory, releases: nat, unmatched: nat) -> Seq<
    PackingListEntry,
> {
    if lists_releases(category) {
        Seq::new(releases, |i: int| PackingListEntry::Release { idx: i as usize })
    } else if category == PackingCategory::Knots {
        Seq::empty()
    } else {
        Seq::new(unmatched, |i: int| PackingListEntry::Unmatched { idx: i as usize })
    }
}

// ---------------------------------------------------------------------------
// Building
// ---------------------------------------------------------------------------

/// The files of a release at their tracks.
fn tracks_of(rows: &Vec<PackingRow>, id: &str) -> (r: Vec<AssignedTrackInfo>)
    ensures
        r.deep_view() == in_order(picked(rows.deep_view(), row_of(id@), as_track()), by_track()),
{
    let ghost s = rows.deep_view();
    let mut out: Vec<AssignedTrackInfo> = nothing();
    proof {
        lemma_picked_start(s, row_of(id@), as_track());
    }
    let mut i: usize = 0;
    while i < rows.len()
        invariant
            i <= rows.len(),
            s == rows.deep_view(),
            out.deep_view() == picked(s.take(i as int), row_of(id@), as_track()),
        decreases rows.len() - i,
    {
        proof {
            lemma_picked_step(s, i as int, row_of(id@), as_track());
        }
        let row: &PackingRow = &rows[i];
        if text::same(row.release_id.as_str(), id) {
            put(
                &mut out,
                AssignedTrackInfo {
                    path: row.path.clone(),
                    track_number: row.track_number.clone(),
                    track_title: row.track_title.clone(),
                    medium_position: row.medium_position,
                    track_position: row.track_position,
                    medium_format: copy_text(&row.medium_format),
                    recording_id: row.recording_id.clone(),
                    score: (row.score.0.clone(), row.score.1.clone()),
                    score_breakdown: row.score_breakdown.clone(),
                    alternatives_count: row.alternatives_count,
                },
            );
        }
        i = i + 1;
    }
    proof {
        assert(s.take(s.len() as int) =~= s);
    }
    sorted(out)
}

/// The gaps of a release.
fn slots_of(slots: &Vec<UnfilledReleaseSlotData>, id: &str) -> (r: Vec<UnfilledSlotInfo>)
    ensures
        r.deep_view() == in_order(picked(slots.deep_view(), slot_of(id@), as_slot()), by_slot()),
{
    let ghost s = slots.deep_view();
    let mut out: Vec<UnfilledSlotInfo> = nothing();
    proof {
        lemma_picked_start(s, slot_of(id@), as_slot());
    }
    let mut i: usize = 0;
    while i < slots.len()
        invariant
            i <= slots.len(),
            s == slots.deep_view(),
            out.deep_view() == picked(s.take(i as int), slot_of(id@), as_slot()),
        decreases slots.len() - i,
    {
        proof {
            lemma_picked_step(s, i as int, slot_of(id@), as_slot());
        }
        let slot: &UnfilledReleaseSlotData = &slots[i];
        if text::same(slot.release_id.as_str(), id) {
            put(
                &mut out,
                UnfilledSlotInfo {
                    medium_pos: slot.medium_pos,
                    track_pos: slot.track_pos,
                    track_title: slot.track_title.clone(),
                    recording_id: slot.recording_id.clone(),
                },
            );
        }
        i = i + 1;
    }
    proof {
        assert(s.take(s.len() as int) =~= s);
    }
    sorted(out)
}

/// The releases that lost to a release.
fn alternatives_of(all: &Vec<AlternativeReleasePackingData>, id: &str) -> (r: Vec<
    AlternativeReleaseInfo,
>)
    ensures
        r.deep_view() == in_order(
            picked(all.deep_view(), lost_to(id@), as_alternative()),
            by_score(),
        ),
{
    let ghost s = all.deep_view();
    let mut out: Vec<AlternativeReleaseInfo> = nothing();
    proof {
        lemma_picked_start(s, lost_to(id@), as_alternative());
    }
    let mut i: usize = 0;
    while i < all.len()
        invariant
            i <= all.len(),
            s == all.deep_view(),
            out.deep_view() == picked(s.take(i as int), lost_to(id@), as_alternative()),
        decreases all.len() - i,
    {
        proof {
            lemma_picked_step(s, i as int, lost_to(id@), as_alternative());
        }
        let a: &AlternativeReleasePackingData = &all[i];
        if text::same(a.winner_release_id.as_str(), id) {
            put(
                &mut out,
                AlternativeReleaseInfo {
                    release_id: a.alternative_release_id.clone(),
                    release_title: a.alternative_release_title.clone(),
                    release_artist: a.alternative_release_artist.clone(),
                    score_order: a.score_order,
                    alternative_score: a.alternative_score.clone(),
                    winner_score: a.winner_score.clone(),
                    inode_count: a.inode_count,
                },
            );
        }
        i = i + 1;
    }
    proof {
        assert(s.take(s.len() as int) =~= s);
    }
    sorted(out)
}

/// The other artist for a release that was given last.
fn override_for(all: &Vec<VariousArtistsOverrideData>, id: &str) -> (r: Option<VaOverrideInfo>)
    ensures
        r.deep_view() == last_of(picked(all.deep_view(), override_of(id@), as_override())),
{
    let ghost s = all.deep_view();
    let mut found: Option<VaOverrideInfo> = None;
    proof {
        lemma_picked_start(s, override_of(id@), as_override());
    }
    let mut i: usize = 0;
    while i < all.len()
        invariant
            i <= all.len(),
            s == all.deep_view(),
            found.deep_view() == last_of(
                picked(s.take(i as int), override_of(id@), as_override()),
            ),
        decreases all.len() - i,
    {
        proof {
            lemma_picked_step(s, i as int, override_of(id@), as_override());
        }
        let v: &VariousArtistsOverrideData = &all[i];
        if text::same(v.release_id.as_str(), id) {
            found = Some(
                VaOverrideInfo {
                    suggested_artist: v.suggested_artist.clone(),
                    source: match v.source {
                        VariousArtistsOverrideSource::ExactAlternative => "exact alternative".to_owned(),
                        VariousArtistsOverrideSource::CompetingProposal => "competing proposal".to_owned(),
                    },
                },
            );
        }
        i = i + 1;
    }
    proof {
        assert(s.take(s.len() as int) =~= s);
    }
    found
}

/// Whether a release was packed before the one at a place, under the same id.
fn is_repeated(packed: &Vec<PackedReleaseData>, i: usize, Ghost(all): Ghost<Findings>) -> (r: bool)
    requires
        i < packed.len(),
        all.packed == packed.deep_view(),
    ensures
        r == all.repeated(i as int),
{
    let mut j: usize = 0;
    while j < i
        invariant
            j <= i < packed.len(),
            all.packed == packed.deep_view(),
            forall|k: int|
                0 <= k < j ==> (#[trigger] all.packed[k]).release_id
                    != all.packed[i as int].release_id,
        decreases i - j,
    {
        if text::same(packed[j].release_id.as_str(), packed[i].release_id.as_str()) {
            proof {
                assert(all.packed[j as int].release_id == all.packed[i as int].release_id);
            }
            return true;
        }
        j = j + 1;
    }
    false
}

impl ReleasePackingBrowserState {
    /// Builds the browser of a kind of releases from everything that packing
    /// found of them.
    pub fn build_releases(
        category: PackingCategory,
        packed: Vec<PackedReleaseData>,
        packing_rows: Vec<PackingRow>,
        unfilled_rows: Vec<UnfilledReleaseSlotData>,
        alt_data: Vec<AlternativeReleasePackingData>,
        va_data: Vec<VariousArtistsOverrideData>,
    ) -> (r: Self)
        requires
            packing_rows.len() + unfilled_rows.len() <= usize::MAX,
        ensures
            r@ == PackingModel::opened(
                category,
                (Findings {
                    packed: packed.deep_view(),
                    rows: packing_rows.deep_view(),
                    slots: unfilled_rows.deep_view(),
                    alternatives: alt_data.deep_view(),
                    overrides: va_data.deep_view(),
                }).releases(),
                Seq::empty(),
            ),
            r@.wf(),
    {
        let ghost all = Findings {
            packed: packed.deep_view(),
            rows: packing_rows.deep_view(),
            slots: unfilled_rows.deep_view(),
            alternatives: alt_data.deep_view(),
            overrides: va_data.deep_view(),
        };
        let mut releases: Vec<ReleaseGroup> = nothing();
        let mut i: usize = 0;
        while i < packed.len()
            invariant
                i <= packed.len(),
                all == (Findings {
                    packed: packed.deep_view(),
                    rows: packing_rows.deep_view(),
                    slots: unfilled_rows.deep_view(),
                    alternatives: alt_data.deep_view(),
                    overrides: va_data.deep_view(),
                }),
                releases.len() == i,
                forall|k: int|
                    0 <= k < i ==> (#[trigger] releases[k]).deep_view() == all.release(k),
            decreases packed.len() - i,
        {
            let p: &PackedReleaseData = &packed[i];
            let id: &str = p.release_id.as_str();
            let first: bool = !is_repeated(&packed, i, Ghost(all));
            let low_confidence_reason: Option<LowConfidenceReason> = match (
                &p.low_confidence_acoustid_ratio,
                &p.low_confidence_avg_album_match,
            ) {
                (Some(a), Some(b)) => Some(
                    LowConfidenceReason { acoustid_ratio: a.clone(), avg_album_match: b.clone() },
                ),
                _ => None,
            };
            let release: ReleaseGroup = ReleaseGroup {
                release_id: p.release_id.clone(),
                release_title: p.release_title.clone(),
                release_artist: p.release_artist.clone(),
                tracks: if first {
                    tracks_of(&packing_rows, id)
                } else {
                    nothing()
                },
                unfilled: if first {
                    slots_of(&unfilled_rows, id)
                } else {
                    nothing()
                },
                assigned_count: p.assigned_count,
                total_tracks: p.total_tracks,
                alternatives: if first {
                    alternatives_of(&alt_data, id)
                } else {
                    nothing()
                },
                va_override: if first {
                    override_for(&va_data, id)
                } else {
                    None
                },
                low_confidence_reason,
            };
            proof {
                assert(release.deep_view() == all.release(i as int));
            }
            releases.push(release);
            i = i + 1;
        }
        proof {
            assert(releases.deep_view() =~= all.unsorted());
            lemma_countable(all);
        }
        Self::open(category, sorted(releases), nothing())
    }

    /// Builds the browser of files without a release, each with its path and
    /// what is known of it.
    pub fn build_unmatched(category: PackingCategory, unmatched_rows: Vec<UnmatchedEntry>) -> (r:
        Self)
        ensures
            r@ == PackingModel::opened(category, Seq::empty(), unmatched_rows.deep_view()),
            r@.wf(),
    {
        Self::open(category, nothing(), unmatched_rows)
    }

    fn open(
        category: PackingCategory,
        releases: Vec<ReleaseGroup>,
        unmatched: Vec<UnmatchedEntry>,
    ) -> (r: Self)
        ensures
            r@ == PackingModel::opened(category, releases.deep_view(), unmatched.deep_view()),
    {
        let mut s = ReleasePackingBrowserState {
            category,
            entries: Vec::new(),
            cursor: 0,
            scroll: 0,
            track_cursor: 0,
            track_scroll: 0,
            detail_scroll: 0,
            focused_pane: FocusedPane::LeftPane,
            pin_input: None,
            click_targets: ListClickTargets { list_area: None, rows: nothing() },
            pinned_release_ids: nothing(),
            pin_error: None,
            releases,
            unmatched,
        };
        s.rebuild_entries();
        s
    }

    /// Lists the results again.
    pub fn rebuild_entries(&mut self)
        ensures
            final(self)@ == (PackingModel {
                entries: listed(
                    old(self)@.category,
                    old(self)@.releases.len(),
                    old(self)@.unmatched.len(),
                ),
                ..old(self)@
            }),
    {
        let mut entries: Vec<PackingListEntry> = Vec::new();
        match self.category {
            PackingCategory::Perfect
            | PackingCategory::FullMatches
            | PackingCategory::Singles
            | PackingCategory::Incomplete
            | PackingCategory::LowConfidence => {
                for idx in 0..self.releases.len()
                    invariant
                        entries.len() == idx,
                        forall|k: int|
                            0 <= k < idx ==> entries@[k] == (PackingListEntry::Release {
                                idx: k as usize,
                            }),
                {
                    entries.push(PackingListEntry::Release { idx });
                }
            },
            PackingCategory::UnsolvedConflict
            | PackingCategory::UnsolvedNoRelease
            | PackingCategory::UnsolvedNoMatch => {
                for idx in 0..self.unmatched.len()
                    invariant
                        entries.len() == idx,
                        forall|k: int|
                            0 <= k < idx ==> entries@[k] == (PackingListEntry::Unmatched {
                                idx: k as usize,
                            }),
                {
                    entries.push(PackingListEntry::Unmatched { idx });
                }
            },
            PackingCategory::Knots => {},
        }
        proof {
            assert(entries@ =~= listed(
                self@.category,
                self@.releases.len(),
                self@.unmatched.len(),
            ));
        }
        self.entries = entries;
    }

    /// The line in hand.
    pub fn selected_entry(&self) -> (r: Option<PackingListEntry>)
        ensures
            r == self@.entry(),
    {
        if self.cursor < self.entries.len() {
            Some(self.entries[self.cursor])
        } else {
            None
        }
    }

    /// The release in hand.
    pub fn selected_release(&self) -> (r: Option<&ReleaseGroup>)
        ensures
            r is Some <==> self@.release() is Some,
            r is Some ==> Some(r->0.deep_view()) == self@.release(),
    {
        match self.selected_entry() {
            Some(PackingListEntry::Release { idx }) => if idx < self.releases.len() {
                Some(&self.releases[idx])
            } else {
                None
            },
            _ => None,
        }
    }

    /// How many tracks and gaps the release in hand has.
    pub fn selected_release_item_count(&self) -> (r: usize)
        requires
            self@.wf(),
        ensures
            r == self@.item_count(),
    {
        match self.selected_release() {
            Some(release) => release.tracks.len() + release.unfilled.len(),
            None => 0,
        }
    }

    /// Answers an input.
    pub fn handle_input(&mut self, action: &InputAction) -> (r: ReleasePackingBrowserAction)
        requires
            old(self)@.wf(),
            old(self)@.detail_scroll <= usize::MAX - 20,
        ensures
            (final(self)@, r.deep_view()) == old(self)@.step(*action),
            final(self)@.wf(),
    {
        if self.pin_input.is_some() {
            return self.handle_pin_input(action);
        }
        match self.focused_pane {
            FocusedPane::LeftPane => self.handle_left_input(action),
            FocusedPane::MiddlePane => self.handle_middle_input(action),
            FocusedPane::DetailPane => self.handle_detail_input(action),
        }
    }

    /// The paths of the tracks of the release in hand.
    fn paths_in_hand(&self) -> (r: Vec<String>)
        ensures
            r.deep_view() == (match self@.release() {
                Some(release) => release.tracks.map_values(track_path()),
                None => Seq::empty(),
            }),
    {
        let mut out: Vec<String> = nothing();
        if let Some(release) = self.selected_release() {
            let ghost s = release.tracks.deep_view();
            let mut i: usize = 0;
            while i < release.tracks.len()
                invariant
                    i <= release.tracks.len(),
                    s == release.tracks.deep_view(),
                    out.len() == i,
                    forall|k: int|
                        0 <= k < i ==> (#[trigger] out[k])@ == track_path()(s[k]),
                decreases release.tracks.len() - i,
            {
                out.push(release.tracks[i].path.clone());
                i = i + 1;
            }
            proof {
                assert(out.deep_view() =~= s.map_values(track_path()));
            }
        }
        out
    }

    fn handle_pin_input(&mut self, action: &InputAction) -> (r: ReleasePackingBrowserAction)
        requires
            old(self)@.wf(),
            old(self)@.pin_input is Some,
        ensures
            (final(self)@, r.deep_view()) == old(self)@.step_pin(*action),
            final(self)@.wf(),
    {
        let ghost start = self@;
        let mut input: TextInputState = match self.pin_input.take() {
            Some(t) => t,
            None => TextInputState::new(),
        };
        let ghost before = input@;
        proof {
            lemma_hex_edits(before);
        }
        match action {
            InputAction::Confirm => {
                let n: usize = input.value().unicode_len();
                if n != 32 {
                    self.pin_error = Some(
                        text::cat3("Need 32 hex characters (have ", text::count(n).as_str(), ")"),
                    );
                    self.pin_input = Some(input);
                    return ReleasePackingBrowserAction::Nothing;
                }
                let release_id: String = as_uuid(input.value());
                let track_paths: Vec<String> = self.paths_in_hand();
                self.pin_error = None;
                return ReleasePackingBrowserAction::PinRelease { release_id, track_paths };
            },
            InputAction::Cancel => {
                self.pin_error = None;
                return ReleasePackingBrowserAction::Nothing;
            },
            InputAction::Char(c) => {
                if is_hex(*c) {
                    self.pin_error = None;
                    if input.value().unicode_len() < 32 {
                        input.insert_char(text::small(*c));
                    }
                }
            },
            InputAction::Paste(s) => {
                self.pin_error = None;
                let hex: String = clean_hex(s.as_str());
                input.clear();
                input.insert_str(hex.as_str());
                proof {
                    let v = before.with_value(Seq::empty()).insert(pasted_hex(s@)).value;
                    assert(v =~= pasted_hex(s@));
                }
            },
            InputAction::Backspace
            | InputAction::Delete
            | InputAction::NavLeft
            | InputAction::NavRight
            | InputAction::Home
            | InputAction::End
            | InputAction::TextHome
            | InputAction::TextEnd
            | InputAction::WordLeft
            | InputAction::WordRight
            | InputAction::KillToStart
            | InputAction::KillToEnd => {
                self.pin_error = None;
                input.handle_input(action);
            },
            _ => {},
        }
        self.pin_input = Some(input);
        ReleasePackingBrowserAction::Nothing
    }

    fn start_pinning(&mut self)
        requires
            old(self)@.wf(),
        ensures
            final(self)@ == old(self)@.pinning(),
            final(self)@.wf(),
    {
        self.pin_input = Some(TextInputState::new());
        self.pin_error = None;
    }

    fn reset_middle_pane(&mut self)
        ensures
            final(self)@ == (PackingModel {
                track_cursor: 0,
                track_scroll: 0,
                detail_scroll: 0,
                ..old(self)@
            }),
    {
        self.track_cursor = 0;
        self.track_scroll = 0;
        self.detail_scroll = 0;
    }

    fn handle_left_input(&mut self, action: &InputAction) -> (r: ReleasePackingBrowserAction)
        requires
            old(self)@.wf(),
        ensures
            (final(self)@, r.deep_view()) == old(self)@.step_left(*action),
            final(self)@.wf(),
    {
        match action {
            InputAction::NavUp => {
                if self.cursor > 0 {
                    self.cursor = self.cursor - 1;
                }
                self.reset_middle_pane();
                ReleasePackingBrowserAction::Nothing
            },
            InputAction::NavDown => {
                if self.entries.len() > 0 && self.cursor < self.entries.len() - 1 {
                    self.cursor = self.cursor + 1;
                }
                self.reset_middle_pane();
                ReleasePackingBrowserAction::Nothing
            },
            InputAction::NavRight | InputAction::FocusRight => {
                self.focused_pane = FocusedPane::MiddlePane;
                ReleasePackingBrowserAction::Nothing
            },
            InputAction::Home => {
                self.cursor = 0;
                self.reset_middle_pane();
                ReleasePackingBrowserAction::Nothing
            },
            InputAction::End => {
                if self.entries.len() > 0 {
                    self.cursor = self.entries.len() - 1;
                }
                self.reset_middle_pane();
                ReleasePackingBrowserAction::Nothing
            },
            InputAction::Char(c) => {
                if *c == 'p' && self.selected_release().is_some() {
                    self.start_pinning();
                }
                ReleasePackingBrowserAction::Nothing
            },
            InputAction::Cancel => ReleasePackingBrowserAction::Cancel,
            _ => ReleasePackingBrowserAction::Nothing,
        }
    }

    fn handle_middle_input(&mut self, action: &InputAction) -> (r: ReleasePackingBrowserAction)
        requires
            old(self)@.wf(),
        ensures
            (final(self)@, r.deep_view()) == old(self)@.step_middle(*action),
            final(self)@.wf(),
    {
        let n: usize = self.selected_release_item_count();
        match action {
            InputAction::NavUp => {
                if self.track_cursor > 0 {
                    self.track_cursor = self.track_cursor - 1;
                    self.detail_scroll = 0;
                }
                ReleasePackingBrowserAction::Nothing
            },
            InputAction::NavDown => {
                if n > 0 && self.track_cursor < n - 1 {
                    self.track_cursor = self.track_cursor + 1;
                    self.detail_scroll = 0;
                }
                ReleasePackingBrowserAction::Nothing
            },
            InputAction::NavLeft | InputAction::FocusLeft => {
                self.focused_pane = FocusedPane::LeftPane;
                ReleasePackingBrowserAction::Nothing
            },
            InputAction::FocusRight => {
                self.focused_pane = FocusedPane::DetailPane;
                self.detail_scroll = 0;
                ReleasePackingBrowserAction::Nothing
            },
            InputAction::Home => {
                self.track_cursor = 0;
                self.detail_scroll = 0;
                ReleasePackingBrowserAction::Nothing
            },
            InputAction::End => {
                if n > 0 {
                    self.track_cursor = n - 1;
                }
                self.detail_scroll = 0;
                ReleasePackingBrowserAction::Nothing
            },
            InputAction::Char(c) => {
                if *c == 'p' && self.selected_release().is_some() {
                    self.start_pinning();
                }
                ReleasePackingBrowserAction::Nothing
            },
            InputAction::Cancel => ReleasePackingBrowserAction::Cancel,
            _ => ReleasePackingBrowserAction::Nothing,
        }
    }

    fn handle_detail_input(&mut self, action: &InputAction) -> (r: ReleasePackingBrowserAction)
        requires
            old(self)@.wf(),
            old(self)@.detail_scroll <= usize::MAX - 20,
        ensures
            (final(self)@, r.deep_view()) == old(self)@.step_detail(*action),
            final(self)@.wf(),
    {
        match action {
            InputAction::NavUp => {
                if self.detail_scroll > 0 {
                    self.detail_scroll = self.detail_scroll - 1;
                }
                ReleasePackingBrowserAction::Nothing
            },
            InputAction::NavDown => {
                self.detail_scroll = self.detail_scroll + 1;
                ReleasePackingBrowserAction::Nothing
            },
            InputAction::PageUp => {
                self.detail_scroll = if self.detail_scroll < 20 {
                    0
                } else {
                    self.detail_scroll - 20
                };
                ReleasePackingBrowserAction::Nothing
            },
            InputAction::PageDown => {
                self.detail_scroll = self.detail_scroll + 20;
                ReleasePackingBrowserAction::Nothing
            },
            InputAction::Home => {
                self.detail_scroll = 0;
                ReleasePackingBrowserAction::Nothing
            },
            InputAction::End => {
                self.detail_scroll = usize::MAX / 2;
                ReleasePackingBrowserAction::Nothing
            },
            InputAction::NavLeft | InputAction::FocusLeft => {
                self.focused_pane = FocusedPane::MiddlePane;
                ReleasePackingBrowserAction::Nothing
            },
            InputAction::Cancel => ReleasePackingBrowserAction::Cancel,
            _ => ReleasePackingBrowserAction::Nothing,
        }
    }
}

/// Thirty-two digits in the form of an id.
fn as_uuid(hex: &str) -> (r: String)
    requires
        hex@.len() == 32,
    ensures
        r@ == uuid(hex@),
{
    let mut s: String = hex.substring_char(0, 8).to_owned();
    s.append("-");
    s.append(hex.substring_char(8, 12));
    s.append("-");
    s.append(hex.substring_char(12, 16));
    s.append("-");
    s.append(hex.substring_char(16, 20));
    s.append("-");
    s.append(hex.substring_char(20, 32));
    s
}

/// A text without the address of a release page before it.
fn strip_address(s: &str) -> (r: &str)
    ensures
        r@ == without_address(s@),
{
    let n: usize = s.unicode_len();
    if text::starts_with(s, "https://musicbrainz.org/release/") {
        let k: usize = "https://musicbrainz.org/release/".unicode_len();
        let r: &str = s.substring_char(k, n);
        proof {
            assert(r@ =~= s@.skip(k as int));
        }
        r
    } else if text::starts_with(s, "http://musicbrainz.org/release/") {
        let k: usize = "http://musicbrainz.org/release/".unicode_len();
        let r: &str = s.substring_char(k, n);
        proof {
            assert(r@ =~= s@.skip(k as int));
        }
        r
    } else {
        s
    }
}

/// The digits of a pasted id.
fn clean_hex(s: &str) -> (r: String)
    ensures
        r@ == pasted_hex(s@),
{
    let chars: Vec<char> = text::chars_of(strip_address(text::trim(s)));
    let ghost all = chars@;
    let mut out: String = String::new();
    let mut n: usize = 0;
    proof {
        lemma_picked_start(all, hex_digit(), made_small());
    }
    let mut i: usize = 0;
    while i < chars.len()
        invariant
            i <= chars.len(),
            all == chars@,
            n == out@.len(),
            n <= 32,
            out@ == at_most(picked(all.take(i as int), hex_digit(), made_small()), 32),
        decreases chars.len() - i,
    {
        proof {
            lemma_picked_step(all, i as int, hex_digit(), made_small());
            let p = picked(all.take(i as int), hex_digit(), made_small());
            if p.len() >= 32 {
                assert(p.push(ascii_small(all[i as int])).take(32) =~= p.take(32));
                assert(p.take(32) =~= at_most(p, 32));
            } else {
                assert(n < 32);
            }
        }
        if n < 32 && is_hex(chars[i]) {
            out.push(text::small(chars[i]));
            n = n + 1;
        }
        i = i + 1;
    }
    proof {
        assert(all.take(all.len() as int) =~= all);
    }
    out
}

// ---------------------------------------------------------------------------
// Proofs
// ---------------------------------------------------------------------------

/// The tracks and gaps of a release are no more than there are rows.
proof fn lemma_countable(all: Findings)
    requires
        all.rows.len() + all.slots.len() <= usize::MAX,
    ensures
        forall|i: int|
            0 <= i < all.releases().len() ==> (#[trigger] all.releases()[i]).tracks.len()
                + all.releases()[i].unfilled.len() <= usize::MAX,
{
    let s = all.unsorted();
    law_in_order(s, by_coverage());
    assert forall|i: int| 0 <= i < all.releases().len() implies (
    #[trigger] all.releases()[i]).tracks.len() + all.releases()[i].unfilled.len() <= usize::MAX by {
        assert(s.contains(all.releases()[i]));
        let k = choose|k: int| 0 <= k < s.len() && s[k] == all.releases()[i];
        let id = all.packed[k].release_id;
        crate::lists::law_chosen(all.rows, row_of(id));
        crate::lists::law_chosen(all.slots, slot_of(id));
        law_in_order(picked(all.rows, row_of(id), as_track()), by_track());
        law_in_order(picked(all.slots, slot_of(id), as_slot()), by_slot());
        assert(s[k] == all.release(k));
    }
}

/// Editing keeps what is typed of an id to small digits.
proof fn lemma_hex_edits(t: TextInputModel)
    requires
        holds_hex(t),
    ensures
        holds_hex(t.backspace()),
        holds_hex(t.delete()),
        holds_hex(t.step(InputAction::NavLeft)),
        holds_hex(t.step(InputAction::NavRight)),
        holds_hex(t.step(InputAction::Home)),
        holds_hex(t.step(InputAction::End)),
        holds_hex(t.step(InputAction::TextHome)),
        holds_hex(t.step(InputAction::TextEnd)),
        holds_hex(t.step(InputAction::WordLeft)),
        holds_hex(t.step(InputAction::WordRight)),
        holds_hex(t.step(InputAction::KillToStart)),
        holds_hex(t.step(InputAction::KillToEnd)),
        forall|c: char|
            #![trigger ascii_small(c)]
            t.value.len() < 32 && is_hex(c) ==> holds_hex(t.insert(seq![ascii_small(c)])),
        forall|s: Seq<char>|
            #![trigger pasted_hex(s)]
            holds_hex(t.with_value(Seq::empty()).insert(pasted_hex(s))),
{
    crate::text_input::law_cursor_stays_in_text(t, InputAction::WordLeft);
    crate::text_input::law_cursor_stays_in_text(t, InputAction::WordRight);
    assert forall|c: char| #![trigger ascii_small(c)] t.value.len() < 32 && is_hex(c) implies holds_hex(
        t.insert(seq![ascii_small(c)]),
    ) by {
        lemma_small_hex(c);
        let v = t.insert(seq![ascii_small(c)]).value;
        assert forall|i: int| 0 <= i < v.len() implies small_hex(#[trigger] v[i]) by {
            if i < t.cursor {
                assert(v[i] == t.value[i]);
            } else if i > t.cursor {
                assert(v[i] == t.value[i - 1]);
            }
        }
    }
    assert forall|s: Seq<char>| #![trigger pasted_hex(s)] holds_hex(
        t.with_value(Seq::empty()).insert(pasted_hex(s)),
    ) by {
        lemma_pasted_hex(s);
        let v = t.with_value(Seq::empty()).insert(pasted_hex(s)).value;
        assert(v =~= pasted_hex(s));
    }
}

/// A digit made small is a small digit.
proof fn lemma_small_hex(c: char)
    requires
        is_hex(c),
    ensures
        small_hex(ascii_small(c)),
{
}

/// What is kept of a pasted id are small digits.
proof fn lemma_pasted_hex(s: Seq<char>)
    ensures
        pasted_hex(s).len() <= 32,
        forall|i: int| 0 <= i < pasted_hex(s).len() ==> small_hex(#[trigger] pasted_hex(s)[i]),
{
    let t = without_address(trimmed(s));
    let kept = chosen(t, hex_digit());
    crate::lists::law_chosen(t, hex_digit());
    let p = picked(t, hex_digit(), made_small());
    assert forall|i: int| 0 <= i < p.len() implies small_hex(#[trigger] p[i]) by {
        assert(hex_digit()(kept[i]));
        lemma_small_hex(kept[i]);
    }
}

// ---------------------------------------------------------------------------
// Laws
// ---------------------------------------------------------------------------

/// A release is pinned only by Enter, and only with all thirty-two digits. The
/// files are those of the release in hand.
pub proof fn law_pinning_takes_full_id(m: PackingModel, action: InputAction)
    requires
        m.wf(),
        m.step(action).1 is PinRelease,
    ensures
        action is Confirm,
        m.pin_input is Some,
        m.pin_input->0.value.len() == 32,
        m.step(action).1->release_id == uuid(m.pin_input->0.value),
        m.release() is Some ==> m.step(action).1->track_paths == m.release()->0.tracks.map_values(
            track_path(),
        ),
{
}

/// An id has eight, four, four, four and twelve small digits, parted by dashes.
pub proof fn law_uuid_form(hex: Seq<char>)
    requires
        hex.len() == 32,
        forall|i: int| 0 <= i < 32 ==> small_hex(#[trigger] hex[i]),
    ensures
        uuid(hex).len() == 36,
        forall|i: int|
            #![trigger uuid(hex)[i]]
            0 <= i < 36 ==> if i == 8 || i == 13 || i == 18 || i == 23 {
                uuid(hex)[i] == '-'
            } else {
                small_hex(uuid(hex)[i])
            },
{
    reveal_strlit("-");
}

/// Whatever is typed or pasted, what is held of an id are at most thirty-two
/// small digits.
pub proof fn law_id_stays_hex(m: PackingModel, action: InputAction)
    requires
        m.wf(),
    ensures
        m.step(action).0.wf(),
{
    if m.pin_input is Some {
        lemma_hex_edits(m.pin_input->0);
        match action {
            InputAction::Char(c) => {
                assert(ascii_small(c) == ascii_small(c));
            },
            InputAction::Paste(s) => {
                assert(pasted_hex(s@) == pasted_hex(s@));
            },
            _ => {},
        }
    }
}

/// The line in hand stays one of the lines.
pub proof fn law_cursor_stays_in_list(m: PackingModel, action: InputAction)
    requires
        m.entries.len() <= usize::MAX,
        m.cursor < m.entries.len() || m.cursor == 0,
    ensures
        m.step(action).0.cursor < m.entries.len() || m.step(action).0.cursor == 0,
        m.step(action).0.entries == m.entries,
        m.step(action).0.releases == m.releases,
{
}

/// The order of releases is one: by coverage, then by the number of tracks.
proof fn lemma_coverage_ranks()
    ensures
        ranks(by_coverage()),
{
}

/// The releases of a browser stand by their coverage, the greatest first, and
/// none is lost or added.
pub proof fn law_releases_by_coverage(all: Findings)
    ensures
        is_ordered(all.releases(), by_coverage()),
        all.releases().to_multiset() == all.unsorted().to_multiset(),
{
    lemma_coverage_ranks();
    law_in_order(all.unsorted(), by_coverage());
}

/// The tracks of a release stand in its order.
pub proof fn law_tracks_in_release_order(all: Findings, i: int)
    requires
        0 <= i < all.packed.len(),
    ensures
        is_ordered(all.release(i).tracks, by_track()),
        is_ordered(all.release(i).unfilled, by_slot()),
        is_ordered(all.release(i).alternatives, by_score()),
{
    let id = all.packed[i].release_id;
    law_in_order(picked(all.rows, row_of(id), as_track()), by_track());
    law_in_order(picked(all.slots, slot_of(id), as_slot()), by_slot());
    law_in_order(picked(all.alternatives, lost_to(id), as_alternative()), by_score());
}

} // verus!
