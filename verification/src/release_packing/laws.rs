//! What the browser promises of what it holds and how it answers.

use vstd::prelude::*;

use crate::input::InputAction;
use crate::lists::{law_picked, picked, tally};
use crate::ordering::{law_in_order, law_in_order_contains};
use crate::text::{ascii_small, begins_with, law_trimmed_is_inside, trimmed, trimmed_end, trimmed_start, white_space};
use crate::release_packing::state::{as_alternative, as_override, as_slot, as_track, by_coverage, by_score, by_slot, by_track, hex_digit, is_hex, lost_to, made_small, override_of, pasted_hex, row_of, slot_of, small_hex, uuid, without_address, Findings, PackingAnswer, PackingModel};
use crate::release_packing::types::{AlternativeDataModel, AlternativeModel, FocusedPane, OverrideDataModel, PackedModel, PackingCategory, PackingListEntry, PackingRowModel, ReleaseModel, SlotModel, TrackInfoModel, UnfilledDataModel, VariousArtistsOverrideSource};

verus! {

// ---------------------------------------------------------------------------
// Releases
// ---------------------------------------------------------------------------

/// Whether a track is what a row tells of.
pub open spec fn tells_of_track(row: PackingRowModel, t: TrackInfoModel) -> bool {
    &&& t.path == row.path
    &&& t.track_number == row.track_number
    &&& t.track_title == row.track_title
    &&& t.medium_position == row.medium_position
    &&& t.track_position == row.track_position
    &&& t.medium_format == row.medium_format
    &&& t.recording_id == row.recording_id
    &&& t.score == row.score
    &&& t.score_breakdown == row.score_breakdown
    &&& t.alternatives_count == row.alternatives_count
}

/// Whether a gap is what a slot tells of.
pub open spec fn tells_of_gap(slot: UnfilledDataModel, g: SlotModel) -> bool {
    &&& g.medium_pos == slot.medium_pos
    &&& g.track_pos == slot.track_pos
    &&& g.track_title == slot.track_title
    &&& g.recording_id == slot.recording_id
}

/// Whether an alternative is what the data on one tell of.
pub open spec fn tells_of_alternative(data: AlternativeDataModel, a: AlternativeModel) -> bool {
    &&& a.release_id == data.alternative_release_id
    &&& a.release_title == data.alternative_release_title
    &&& a.release_artist == data.alternative_release_artist
    &&& a.score_order == data.score_order
    &&& a.alternative_score == data.alternative_score
    &&& a.winner_score == data.winner_score
    &&& a.inode_count == data.inode_count
}

/// Whether the tracks of a release are those that the rows name it for: each row
/// with its id gives one track, and there is no other; they stand by medium, then
/// by track.
pub open spec fn has_its_tracks(rows: Seq<PackingRowModel>, r: ReleaseModel) -> bool {
    &&& forall|t: TrackInfoModel| #[trigger]
        r.tracks.contains(t) <==> exists|k: int|
            0 <= k < rows.len() && (#[trigger] rows[k]).release_id == r.release_id
                && tells_of_track(rows[k], t)
    &&& r.tracks.len() == tally(rows, |row: PackingRowModel| row.release_id == r.release_id)
    &&& forall|i: int, j: int|
        0 <= i < j < r.tracks.len() ==> (#[trigger] r.tracks[i]).medium_position < (
        #[trigger] r.tracks[j]).medium_position || (r.tracks[i].medium_position
            == r.tracks[j].medium_position && r.tracks[i].track_position
            <= r.tracks[j].track_position)
}

/// Whether the gaps of a release are those of the slots with its id.
pub open spec fn has_its_gaps(slots: Seq<UnfilledDataModel>, r: ReleaseModel) -> bool {
    &&& forall|g: SlotModel| #[trigger]
        r.unfilled.contains(g) <==> exists|k: int|
            0 <= k < slots.len() && (#[trigger] slots[k]).release_id == r.release_id
                && tells_of_gap(slots[k], g)
    &&& r.unfilled.len() == tally(slots, |s: UnfilledDataModel| s.release_id == r.release_id)
    &&& forall|i: int, j: int|
        0 <= i < j < r.unfilled.len() ==> (#[trigger] r.unfilled[i]).medium_pos < (
        #[trigger] r.unfilled[j]).medium_pos || (r.unfilled[i].medium_pos
            == r.unfilled[j].medium_pos && r.unfilled[i].track_pos <= r.unfilled[j].track_pos)
}

/// Whether the alternatives of a release are those that lost to it, the best
/// first.
pub open spec fn has_its_alternatives(data: Seq<AlternativeDataModel>, r: ReleaseModel) -> bool {
    &&& forall|a: AlternativeModel| #[trigger]
        r.alternatives.contains(a) <==> exists|k: int|
            0 <= k < data.len() && (#[trigger] data[k]).winner_release_id == r.release_id
                && tells_of_alternative(data[k], a)
    &&& r.alternatives.len() == tally(
        data,
        |a: AlternativeDataModel| a.winner_release_id == r.release_id,
    )
    &&& forall|i: int, j: int|
        0 <= i < j < r.alternatives.len() ==> (#[trigger] r.alternatives[i]).score_order >= (
        #[trigger] r.alternatives[j]).score_order
}

/// Whether the other artist of a release is the last that was suggested for it.
pub open spec fn has_its_override(data: Seq<OverrideDataModel>, r: ReleaseModel) -> bool {
    match r.va_override {
        None => forall|k: int|
            0 <= k < data.len() ==> (#[trigger] data[k]).release_id != r.release_id,
        Some(o) => exists|k: int|
            {
                &&& 0 <= k < data.len()
                &&& (#[trigger] data[k]).release_id == r.release_id
                &&& forall|l: int|
                    k < l < data.len() ==> (#[trigger] data[l]).release_id != r.release_id
                &&& o.suggested_artist == data[k].suggested_artist
                &&& data[k].source == VariousArtistsOverrideSource::ExactAlternative ==> o.source
                    == "exact alternative"@
                &&& data[k].source == VariousArtistsOverrideSource::CompetingProposal ==> o.source
                    == "competing proposal"@
            },
    }
}

/// Whether a release is named as it was packed, with its own counts. It is held
/// to be packed by mistake where both reasons for that are there.
pub open spec fn named_as_packed(p: PackedModel, r: ReleaseModel) -> bool {
    &&& r.release_id == p.release_id
    &&& r.release_title == p.release_title
    &&& r.release_artist == p.release_artist
    &&& r.assigned_count == p.assigned_count
    &&& r.total_tracks == p.total_tracks
    &&& r.low_confidence_reason is Some <==> p.low_confidence_acoustid_ratio is Some
        && p.low_confidence_avg_album_match is Some
    &&& r.low_confidence_reason matches Some(why) ==> Some(why.acoustid_ratio)
        == p.low_confidence_acoustid_ratio && Some(why.avg_album_match)
        == p.low_confidence_avg_album_match
}

/// Whether a release was packed before under the same id.
pub open spec fn packed_before(packed: Seq<PackedModel>, i: int) -> bool {
    exists|j: int| 0 <= j < i && (#[trigger] packed[j]).release_id == packed[i].release_id
}

/// Whether a release holds what was found of it. What was found under an id goes
/// to the first release that was packed under it.
#[verifier::opaque]
pub open spec fn holds_its_own(all: Findings, i: int, r: ReleaseModel) -> bool {
    &&& named_as_packed(all.packed[i], r)
    &&& !packed_before(all.packed, i) ==> has_its_tracks(all.rows, r) && has_its_gaps(
        all.slots,
        r,
    ) && has_its_alternatives(all.alternatives, r) && has_its_override(all.overrides, r)
    &&& packed_before(all.packed, i) ==> r.tracks.len() == 0 && r.unfilled.len() == 0
        && r.alternatives.len() == 0 && r.va_override is None
}

/// Whether a release that was packed stands among some, with its own.
pub open spec fn is_among(all: Findings, i: int, releases: Seq<ReleaseModel>) -> bool {
    exists|j: int| 0 <= j < releases.len() && #[trigger] holds_its_own(all, i, releases[j])
}

/// Whether a release is one that was packed, with its own.
pub open spec fn was_packed(all: Findings, r: ReleaseModel) -> bool {
    exists|i: int| 0 <= i < all.packed.len() && #[trigger] holds_its_own(all, i, r)
}

/// Every release that was packed is listed, with its own tracks, gaps and
/// alternatives and with those of no other release; and no release is listed that
/// was not packed.
pub proof fn law_releases_hold_their_own(all: Findings)
    ensures
        all.releases().len() == all.packed.len(),
        forall|i: int|
            0 <= i < all.packed.len() ==> #[trigger] is_among(all, i, all.releases()),
        forall|j: int|
            0 <= j < all.releases().len() ==> was_packed(all, #[trigger] all.releases()[j]),
{
    let u = all.unsorted();
    let s = all.releases();
    law_in_order(u, by_coverage());
    law_in_order_contains(u, by_coverage());
    assert forall|i: int| 0 <= i < all.packed.len() implies #[trigger] is_among(all, i, s) by {
        lemma_holds_its_own(all, i);
        assert(u.contains(u[i]));
        assert(s.contains(u[i]));
        let j = choose|j: int| 0 <= j < s.len() && s[j] == u[i];
        assert(holds_its_own(all, i, s[j]));
    }
    assert forall|j: int| 0 <= j < s.len() implies was_packed(all, #[trigger] s[j]) by {
        assert(s.contains(s[j]));
        assert(u.contains(s[j]));
        let i = choose|i: int| 0 <= i < u.len() && u[i] == s[j];
        lemma_holds_its_own(all, i);
    }
}

proof fn lemma_holds_its_own(all: Findings, i: int)
    requires
        0 <= i < all.packed.len(),
    ensures
        holds_its_own(all, i, all.release(i)),
{
    reveal(holds_its_own);
    assert(all.repeated(i) == packed_before(all.packed, i));
    if !packed_before(all.packed, i) {
        lemma_has_its_tracks(all, i);
        lemma_has_its_gaps(all, i);
        lemma_has_its_alternatives(all, i);
        lemma_has_its_override(all, i);
    }
}

proof fn lemma_has_its_tracks(all: Findings, i: int)
    requires
        0 <= i < all.packed.len(),
        !all.repeated(i),
    ensures
        has_its_tracks(all.rows, all.release(i)),
{
    let r = all.release(i);
    let id = r.release_id;
    let rows = all.rows;
    let base = picked(rows, row_of(id), as_track());
    law_picked(rows, row_of(id), as_track());
    law_in_order(base, by_track());
    law_in_order_contains(base, by_track());
    assert(tally(rows, row_of(id)) == tally(rows, |row: PackingRowModel| row.release_id == id)) by {
        assert(row_of(id) =~= (|row: PackingRowModel| row.release_id == id));
    }
    assert forall|t: TrackInfoModel| #[trigger] r.tracks.contains(t) <==> exists|k: int|
        0 <= k < rows.len() && (#[trigger] rows[k]).release_id == id && tells_of_track(
            rows[k],
            t,
        ) by {
        assert(r.tracks.contains(t) <==> base.contains(t));
        if base.contains(t) {
            let k = choose|k: int|
                0 <= k < rows.len() && row_of(id)(#[trigger] rows[k]) && as_track()(rows[k]) == t;
            assert(tells_of_track(rows[k], t));
        }
        if exists|k: int|
            0 <= k < rows.len() && (#[trigger] rows[k]).release_id == id && tells_of_track(
                rows[k],
                t,
            ) {
            let k = choose|k: int|
                0 <= k < rows.len() && (#[trigger] rows[k]).release_id == id && tells_of_track(
                    rows[k],
                    t,
                );
            assert(row_of(id)(rows[k]) && as_track()(rows[k]) == t);
        }
    }
    assert forall|a: int, b: int| 0 <= a < b < r.tracks.len() implies (
    #[trigger] r.tracks[a]).medium_position < (#[trigger] r.tracks[b]).medium_position || (
    r.tracks[a].medium_position == r.tracks[b].medium_position && r.tracks[a].track_position
        <= r.tracks[b].track_position) by {
        assert(!by_track()(r.tracks[b], r.tracks[a]));
    }
}

proof fn lemma_has_its_gaps(all: Findings, i: int)
    requires
        0 <= i < all.packed.len(),
        !all.repeated(i),
    ensures
        has_its_gaps(all.slots, all.release(i)),
{
    let r = all.release(i);
    let id = r.release_id;
    let slots = all.slots;
    let base = picked(slots, slot_of(id), as_slot());
    law_picked(slots, slot_of(id), as_slot());
    law_in_order(base, by_slot());
    law_in_order_contains(base, by_slot());
    assert(tally(slots, slot_of(id)) == tally(slots, |s: UnfilledDataModel| s.release_id == id)) by {
        assert(slot_of(id) =~= (|s: UnfilledDataModel| s.release_id == id));
    }
    assert forall|g: SlotModel| #[trigger] r.unfilled.contains(g) <==> exists|k: int|
        0 <= k < slots.len() && (#[trigger] slots[k]).release_id == id && tells_of_gap(
            slots[k],
            g,
        ) by {
        assert(r.unfilled.contains(g) <==> base.contains(g));
        if base.contains(g) {
            let k = choose|k: int|
                0 <= k < slots.len() && slot_of(id)(#[trigger] slots[k]) && as_slot()(slots[k])
                    == g;
            assert(tells_of_gap(slots[k], g));
        }
        if exists|k: int|
            0 <= k < slots.len() && (#[trigger] slots[k]).release_id == id && tells_of_gap(
                slots[k],
                g,
            ) {
            let k = choose|k: int|
                0 <= k < slots.len() && (#[trigger] slots[k]).release_id == id && tells_of_gap(
                    slots[k],
                    g,
                );
            assert(slot_of(id)(slots[k]) && as_slot()(slots[k]) == g);
        }
    }
    assert forall|a: int, b: int| 0 <= a < b < r.unfilled.len() implies (
    #[trigger] r.unfilled[a]).medium_pos < (#[trigger] r.unfilled[b]).medium_pos || (
    r.unfilled[a].medium_pos == r.unfilled[b].medium_pos && r.unfilled[a].track_pos
        <= r.unfilled[b].track_pos) by {
        assert(!by_slot()(r.unfilled[b], r.unfilled[a]));
    }
}

proof fn lemma_has_its_alternatives(all: Findings, i: int)
    requires
        0 <= i < all.packed.len(),
        !all.repeated(i),
    ensures
        has_its_alternatives(all.alternatives, all.release(i)),
{
    let r = all.release(i);
    let id = r.release_id;
    let data = all.alternatives;
    let base = picked(data, lost_to(id), as_alternative());
    law_picked(data, lost_to(id), as_alternative());
    law_in_order(base, by_score());
    law_in_order_contains(base, by_score());
    assert(tally(data, lost_to(id)) == tally(
        data,
        |a: AlternativeDataModel| a.winner_release_id == id,
    )) by {
        assert(lost_to(id) =~= (|a: AlternativeDataModel| a.winner_release_id == id));
    }
    assert forall|a: AlternativeModel| #[trigger] r.alternatives.contains(a) <==> exists|k: int|
        0 <= k < data.len() && (#[trigger] data[k]).winner_release_id == id
            && tells_of_alternative(data[k], a) by {
        assert(r.alternatives.contains(a) <==> base.contains(a));
        if base.contains(a) {
            let k = choose|k: int|
                0 <= k < data.len() && lost_to(id)(#[trigger] data[k]) && as_alternative()(data[k])
                    == a;
            assert(tells_of_alternative(data[k], a));
        }
        if exists|k: int|
            0 <= k < data.len() && (#[trigger] data[k]).winner_release_id == id
                && tells_of_alternative(data[k], a) {
            let k = choose|k: int|
                0 <= k < data.len() && (#[trigger] data[k]).winner_release_id == id
                    && tells_of_alternative(data[k], a);
            assert(lost_to(id)(data[k]) && as_alternative()(data[k]) == a);
        }
    }
    assert forall|a: int, b: int| 0 <= a < b < r.alternatives.len() implies (
    #[trigger] r.alternatives[a]).score_order >= (
    #[trigger] r.alternatives[b]).score_order by {
        assert(!by_score()(r.alternatives[b], r.alternatives[a]));
    }
}

proof fn lemma_has_its_override(all: Findings, i: int)
    requires
        0 <= i < all.packed.len(),
        !all.repeated(i),
    ensures
        has_its_override(all.overrides, all.release(i)),
{
    let id = all.packed[i].release_id;
    lemma_last_override(all.overrides, id);
    let data = all.overrides;
    let base = picked(data, override_of(id), as_override());
    law_picked(data, override_of(id), as_override());
    crate::lists::law_tally(data, override_of(id));
    if base.len() == 0 {
        assert forall|k: int| 0 <= k < data.len() implies (#[trigger] data[k]).release_id != id by {
            assert(!override_of(id)(data[k]));
        }
    }
}

proof fn lemma_last_override(data: Seq<OverrideDataModel>, id: Seq<char>)
    ensures
        picked(data, override_of(id), as_override()).len() > 0 ==> exists|k: int|
            {
                &&& 0 <= k < data.len()
                &&& (#[trigger] data[k]).release_id == id
                &&& forall|l: int| k < l < data.len() ==> (#[trigger] data[l]).release_id != id
                &&& picked(data, override_of(id), as_override()).last() == as_override()(data[k])
            },
    decreases data.len(),
{
    let base = picked(data, override_of(id), as_override());
    if data.len() > 0 {
        let init = data.drop_last();
        crate::lists::lemma_picked_step(
            data,
            data.len() - 1,
            override_of(id),
            as_override(),
        );
        assert(data.take(data.len() - 1) =~= init);
        assert(data.take(data.len() as int) =~= data);
        if override_of(id)(data[data.len() - 1]) {
            assert(base.last() == as_override()(data[data.len() - 1]));
        } else if base.len() > 0 {
            lemma_last_override(init, id);
            let k = choose|k: int|
                {
                    &&& 0 <= k < init.len()
                    &&& (#[trigger] init[k]).release_id == id
                    &&& forall|l: int| k < l < init.len() ==> (#[trigger] init[l]).release_id != id
                    &&& picked(init, override_of(id), as_override()).last() == as_override()(
                        init[k],
                    )
                };
            assert(data[k] == init[k]);
            assert forall|l: int| k < l < data.len() implies (#[trigger] data[l]).release_id
                != id by {
                if l < init.len() {
                    assert(init[l] == data[l]);
                }
            }
        }
    }
}

/// A browser opens on its releases, the first in hand, in the categories that
/// list releases, and on the files without one in the others; each has one line,
/// in its order.
pub proof fn law_browser_lists_what_it_holds(
    category: PackingCategory,
    releases: Seq<ReleaseModel>,
    unmatched: Seq<crate::release_packing::types::UnmatchedModel>,
    i: int,
)
    requires
        releases.len() <= usize::MAX,
        unmatched.len() <= usize::MAX,
    ensures
        PackingModel::opened(category, releases, unmatched).releases == releases,
        PackingModel::opened(category, releases, unmatched).unmatched == unmatched,
        PackingModel::opened(category, releases, unmatched).category == category,
        PackingModel::opened(category, releases, unmatched).cursor == 0,
        PackingModel::opened(category, releases, unmatched).track_cursor == 0,
        PackingModel::opened(category, releases, unmatched).focused_pane == FocusedPane::LeftPane,
        PackingModel::opened(category, releases, unmatched).pin_input is None,
        category == PackingCategory::Knots ==> PackingModel::opened(
            category,
            releases,
            unmatched,
        ).entries.len() == 0,
        category == PackingCategory::UnsolvedConflict || category
            == PackingCategory::UnsolvedNoRelease || category == PackingCategory::UnsolvedNoMatch
            ==> PackingModel::opened(category, releases, unmatched).entries.len()
            == unmatched.len() && (0 <= i < unmatched.len() ==> PackingModel::opened(
            category,
            releases,
            unmatched,
        ).entries[i] == (PackingListEntry::Unmatched { idx: i as usize })),
        category == PackingCategory::Perfect || category == PackingCategory::FullMatches
            || category == PackingCategory::Singles || category == PackingCategory::Incomplete
            || category == PackingCategory::LowConfidence ==> PackingModel::opened(
            category,
            releases,
            unmatched,
        ).entries.len() == releases.len() && (0 <= i < releases.len() ==> PackingModel::opened(
            category,
            releases,
            unmatched,
        ).entries[i] == (PackingListEntry::Release { idx: i as usize })),
{
}

/// Complete releases stand before all others, and among releases with the same
/// number of tracks one with more files never stands behind one with fewer,
/// unless the two round to one coverage.
pub proof fn law_complete_releases_first(all: Findings, i: int, j: int)
    requires
        0 <= i < j < all.releases().len(),
        all.releases()[i].assigned_count < 0x100_0000,
        all.releases()[j].assigned_count < 0x100_0000,
        0 < all.releases()[i].total_tracks < 0x100_0000,
        0 < all.releases()[j].total_tracks < 0x100_0000,
    ensures
        all.releases()[j].assigned_count >= all.releases()[j].total_tracks
            ==> all.releases()[i].assigned_count >= all.releases()[i].total_tracks,
        all.releases()[i].coverage() >= all.releases()[j].coverage(),
        all.releases()[i].coverage() == all.releases()[j].coverage()
            ==> all.releases()[i].total_tracks >= all.releases()[j].total_tracks,
{
    crate::release_packing::state::law_releases_by_coverage(all);
    let a = all.releases()[i];
    let b = all.releases()[j];
    assert(!by_coverage()(b, a));
    crate::single::law_full_share(a.assigned_count as nat, a.total_tracks as nat);
    crate::single::law_full_share(b.assigned_count as nat, b.total_tracks as nat);
}

/// The coverage is the share of the tracks that have a file: none where there is
/// no track, the whole where all have one, and more files never cover less.
pub proof fn law_coverage_is_a_share(r: ReleaseModel, more: u32)
    requires
        r.assigned_count <= more,
    ensures
        r.total_tracks == 0 ==> r.coverage() == 0,
        r.assigned_count == 0 ==> r.coverage() == 0,
        r.total_tracks > 0 && r.assigned_count == r.total_tracks ==> r.coverage()
            == crate::single::one(),
        r.coverage() <= (ReleaseModel { assigned_count: more, ..r }).coverage(),
        r.total_tracks > 0 && r.total_tracks < 0x100_0000 && r.assigned_count < r.total_tracks
            ==> r.coverage() < crate::single::one(),
{
    if r.total_tracks > 0 {
        crate::single::law_share_follows_part(
            r.assigned_count as nat,
            more as nat,
            r.total_tracks as nat,
        );
        if r.total_tracks < 0x100_0000 && r.assigned_count < r.total_tracks {
            crate::single::law_full_share(r.assigned_count as nat, r.total_tracks as nat);
        }
    }
}

// ---------------------------------------------------------------------------
// Pinning
// ---------------------------------------------------------------------------

/// The release that the cursor stands on.
pub open spec fn release_under_cursor(m: PackingModel) -> Option<ReleaseModel> {
    if m.cursor < m.entries.len() && m.entries[m.cursor as int] is Release
        && m.entries[m.cursor as int]->Release_idx < m.releases.len() {
        Some(m.releases[m.entries[m.cursor as int]->Release_idx as int])
    } else {
        None
    }
}

/// Enter while an id is typed pins the release in hand to that id just when the
/// id has all its digits: the tracks that are pinned are the files of the release
/// in hand, all of them and in their order, and the typing ends. With fewer digits
/// the typing goes on, and an error is shown.
pub proof fn law_enter_pins_the_release_in_hand(m: PackingModel)
    requires
        m.wf(),
        m.pin_input is Some,
    ensures
        m.step(InputAction::Confirm).1 is PinRelease <==> m.pin_input->0.value.len() == 32,
        m.step(InputAction::Confirm).1 is PinRelease ==> m.step(InputAction::Confirm).0.pin_input is None
            && m.step(InputAction::Confirm).0.pin_error is None,
        m.step(InputAction::Confirm).1 is PinRelease && release_under_cursor(m) is Some
            ==> m.step(InputAction::Confirm).1->track_paths.len() == release_under_cursor(
            m,
        )->0.tracks.len() && forall|i: int|
            0 <= i < release_under_cursor(m)->0.tracks.len() ==> #[trigger] m.step(
                InputAction::Confirm,
            ).1->track_paths[i] == release_under_cursor(m)->0.tracks[i].path,
        m.step(InputAction::Confirm).1 is PinRelease && release_under_cursor(m) is None
            ==> m.step(InputAction::Confirm).1->track_paths.len() == 0,
        m.pin_input->0.value.len() != 32 ==> m.step(InputAction::Confirm).1 is Nothing && m.step(
            InputAction::Confirm,
        ).0.pin_input == m.pin_input && m.step(InputAction::Confirm).0.pin_error is Some,
{
}

/// The id that is pinned has the digits that were typed, in their order, in groups
/// of eight, four, four, four and twelve.
pub proof fn law_id_has_the_digits_typed(hex: Seq<char>)
    requires
        hex.len() == 32,
    ensures
        uuid(hex).len() == 36,
        forall|i: int| 0 <= i < 8 ==> #[trigger] hex[i] == uuid(hex)[i],
        forall|i: int| 8 <= i < 12 ==> #[trigger] hex[i] == uuid(hex)[i + 1],
        forall|i: int| 12 <= i < 16 ==> #[trigger] hex[i] == uuid(hex)[i + 2],
        forall|i: int| 16 <= i < 20 ==> #[trigger] hex[i] == uuid(hex)[i + 3],
        forall|i: int| 20 <= i < 32 ==> #[trigger] hex[i] == uuid(hex)[i + 4],
        uuid(hex)[8] == '-',
        uuid(hex)[13] == '-',
        uuid(hex)[18] == '-',
        uuid(hex)[23] == '-',
{
    reveal_strlit("-");
}

/// A digit is typed at the cursor, in its small form, as long as there is room; no
/// other character is.
pub proof fn law_digits_are_typed(m: PackingModel, c: char)
    requires
        m.wf(),
        m.pin_input is Some,
    ensures
        m.step(InputAction::Char(c)).1 is Nothing,
        !is_hex(c) ==> m.step(InputAction::Char(c)).0 == m,
        m.pin_input->0.value.len() >= 32 ==> m.step(InputAction::Char(c)).0.pin_input
            == m.pin_input,
        is_hex(c) && m.pin_input->0.value.len() < 32 ==> {
            let t = m.pin_input->0;
            let after = m.step(InputAction::Char(c)).0.pin_input;
            &&& after is Some
            &&& after->0.value == t.value.insert(
                t.cursor as int,
                ascii_small(c),
            )
            &&& after->0.cursor == t.cursor + 1
        },
{
    if is_hex(c) && m.pin_input->0.value.len() < 32 {
        let t = m.pin_input->0;
        assert(t.insert(seq![ascii_small(c)]).value =~= t.value.insert(
            t.cursor as int,
            ascii_small(c),
        ));
    }
}

/// Typing an id starts with `p` on a release, in the list of releases and in that
/// of its tracks, and from nothing; Esc ends it without pinning.
pub proof fn law_typing_starts_and_ends(m: PackingModel, c: char)
    ensures
        m.pin_input is None ==> (m.step(InputAction::Char(c)).0.pin_input is Some <==> c == 'p'
            && release_under_cursor(m) is Some && m.focused_pane != FocusedPane::DetailPane),
        m.pin_input is None && m.step(InputAction::Char(c)).0.pin_input is Some ==> m.step(
            InputAction::Char(c),
        ).0.pin_input->0.value.len() == 0,
        m.pin_input is Some ==> m.step(InputAction::Cancel).0.pin_input is None && m.step(
            InputAction::Cancel,
        ).1 is Nothing,
        m.pin_input is None ==> m.step(InputAction::Cancel) == (m, PackingAnswer::Cancel),
{
}

/// Whether a character is the small form of a digit that stands in a text.
pub open spec fn is_digit_of(c: char, s: Seq<char>) -> bool {
    exists|k: int| 0 <= k < s.len() && is_hex(#[trigger] s[k]) && c == ascii_small(s[k])
}

/// What is pasted becomes the whole id: small digits that stand in what was
/// pasted, up to the number that an id has.
pub proof fn law_pasting_takes_digits(m: PackingModel, s: String)
    requires
        m.wf(),
        m.pin_input is Some,
    ensures
        m.step(InputAction::Paste(s)).0.pin_input is Some,
        m.step(InputAction::Paste(s)).0.pin_input->0.value.len() <= 32,
        forall|i: int|
            0 <= i < m.step(InputAction::Paste(s)).0.pin_input->0.value.len() ==> is_digit_of(
                #[trigger] m.step(InputAction::Paste(s)).0.pin_input->0.value[i],
                s@,
            ),
{
    let t = m.pin_input->0;
    let hex = pasted_hex(s@);
    let empty = t.with_value(Seq::empty());
    assert(empty.insert(hex).value =~= hex);
    lemma_pasted(s@);
}

proof fn lemma_pasted(s: Seq<char>)
    ensures
        forall|i: int| 0 <= i < pasted_hex(s).len() ==> is_digit_of(#[trigger] pasted_hex(s)[i], s),
{
    let tr = trimmed(s);
    let w = without_address(tr);
    let all = picked(w, hex_digit(), made_small());
    law_picked(w, hex_digit(), made_small());
    let hex = pasted_hex(s);
    law_trimmed_is_inside(s);
    assert forall|i: int| 0 <= i < hex.len() implies is_digit_of(#[trigger] hex[i], s) by {
        assert(hex[i] == all[i]);
        assert(all.contains(all[i]));
        let k = choose|k: int|
            0 <= k < w.len() && hex_digit()(#[trigger] w[k]) && made_small()(w[k]) == all[i];
        let from = (tr.len() - w.len()) as int;
        assert(w[k] == tr[from + k]);
        let a = choose|a: int|
            0 <= a && a + tr.len() <= s.len() && #[trigger] s.subrange(a, a + tr.len()) == tr && (
            forall|k: int| 0 <= k < a ==> white_space(#[trigger] s[k])) && (forall|k: int|
                a + tr.len() <= k < s.len() ==> white_space(#[trigger] s[k]));
        assert(s.subrange(a, a + tr.len())[from + k] == s[a + from + k]);
        assert(is_hex(s[a + from + k]));
    }
}

/// An id that is pasted by itself, or behind the address of its release, is taken
/// as it is: every digit of it, in its order.
pub proof fn law_pasting_an_id(hex: Seq<char>)
    requires
        hex.len() == 32,
        forall|i: int| 0 <= i < hex.len() ==> small_hex(#[trigger] hex[i]),
    ensures
        pasted_hex(hex) == hex,
        pasted_hex("https://musicbrainz.org/release/"@ + hex) == hex,
        pasted_hex("http://musicbrainz.org/release/"@ + hex) == hex,
{
    let a = "https://musicbrainz.org/release/"@;
    let b = "http://musicbrainz.org/release/"@;
    reveal_strlit("https://musicbrainz.org/release/");
    reveal_strlit("http://musicbrainz.org/release/");
    assert(!white_space('h'));
    assert forall|i: int| 0 <= i < hex.len() implies !white_space(#[trigger] hex[i]) by {
        assert(small_hex(hex[i]));
    }
    lemma_nothing_to_trim(hex);
    lemma_nothing_to_trim(a + hex);
    lemma_nothing_to_trim(b + hex);
    assert((a + hex).take(a.len() as int) =~= a);
    assert((b + hex).take(b.len() as int) =~= b);
    assert((a + hex).skip(a.len() as int) =~= hex);
    assert((b + hex).skip(b.len() as int) =~= hex);
    assert(!begins_with(b + hex, a)) by {
        assert((b + hex)[4] == ':');
        assert(a[4] == 's');
        if begins_with(b + hex, a) {
            assert((b + hex).take(a.len() as int)[4] == a[4]);
        }
    }
    assert(!begins_with(hex, a) && !begins_with(hex, b)) by {
        assert(small_hex(hex[0]));
        if begins_with(hex, a) {
            assert(hex.take(a.len() as int)[0] == a[0]);
        }
        if begins_with(hex, b) {
            assert(hex.take(b.len() as int)[0] == b[0]);
        }
    }
    crate::lists::law_chosen(hex, hex_digit());
    assert forall|k: int| 0 <= k < hex.len() implies hex_digit()(#[trigger] hex[k]) by {
        assert(small_hex(hex[k]));
    }
    assert forall|k: int| 0 <= k < hex.len() implies ascii_small(#[trigger] hex[k]) == hex[k] by {
        assert(small_hex(hex[k]));
    }
    assert(hex.map_values(made_small()) =~= hex);
}

proof fn lemma_nothing_to_trim(s: Seq<char>)
    requires
        s.len() > 0,
        !white_space(s[0]),
        !white_space(s.last()),
    ensures
        trimmed(s) == s,
{
    assert(trimmed_start(s) == s);
    assert(trimmed_end(s) == s);
}

// ---------------------------------------------------------------------------
// Moving about
// ---------------------------------------------------------------------------

/// In the list on the left, Up and Down go to the line before and after, Home to
/// the first and End to the last; a line that is left behind takes the places in
/// the other panes with it. Right goes into the tracks.
pub proof fn law_left_list_is_walked(m: PackingModel)
    requires
        m.pin_input is None,
        m.focused_pane == FocusedPane::LeftPane,
        m.cursor < m.entries.len() <= usize::MAX,
    ensures
        m.step(InputAction::NavUp).0.cursor == (if m.cursor == 0 {
            0int
        } else {
            m.cursor - 1
        }),
        m.step(InputAction::NavDown).0.cursor == (if m.cursor + 1 == m.entries.len() {
            m.cursor as int
        } else {
            m.cursor + 1
        }),
        m.step(InputAction::Home).0.cursor == 0,
        m.step(InputAction::End).0.cursor == m.entries.len() - 1,
        m.step(InputAction::NavUp).0.track_cursor == 0 && m.step(InputAction::NavUp).0.detail_scroll
            == 0,
        m.step(InputAction::NavDown).0.track_cursor == 0 && m.step(
            InputAction::NavDown,
        ).0.detail_scroll == 0,
        m.step(InputAction::NavRight).0 == (PackingModel {
            focused_pane: FocusedPane::MiddlePane,
            ..m
        }),
        m.step(InputAction::FocusRight).0 == m.step(InputAction::NavRight).0,
{
}

/// Among the tracks and gaps of a release, Up and Down go to the one before and
/// after, and stop at the ends; the line on the left stays in hand. Left goes back
/// to the releases, and with Shift Right goes on to the details.
pub proof fn law_tracks_are_walked(m: PackingModel)
    requires
        m.pin_input is None,
        m.focused_pane == FocusedPane::MiddlePane,
        release_under_cursor(m) is Some,
        m.track_cursor < release_under_cursor(m)->0.tracks.len() + release_under_cursor(
            m,
        )->0.unfilled.len() <= usize::MAX,
    ensures
        m.step(InputAction::NavUp).0.track_cursor == (if m.track_cursor == 0 {
            0int
        } else {
            m.track_cursor - 1
        }),
        m.step(InputAction::NavDown).0.track_cursor == (if m.track_cursor + 1
            == release_under_cursor(m)->0.tracks.len() + release_under_cursor(
            m,
        )->0.unfilled.len() {
            m.track_cursor as int
        } else {
            m.track_cursor + 1
        }),
        m.step(InputAction::Home).0.track_cursor == 0,
        m.step(InputAction::End).0.track_cursor == release_under_cursor(m)->0.tracks.len()
            + release_under_cursor(m)->0.unfilled.len() - 1,
        m.step(InputAction::NavUp).0.cursor == m.cursor,
        m.step(InputAction::NavDown).0.cursor == m.cursor,
        m.step(InputAction::NavLeft).0 == (PackingModel {
            focused_pane: FocusedPane::LeftPane,
            ..m
        }),
        m.step(InputAction::FocusLeft).0 == m.step(InputAction::NavLeft).0,
        m.step(InputAction::FocusRight).0.focused_pane == FocusedPane::DetailPane,
        m.step(InputAction::FocusRight).0.detail_scroll == 0,
{
}

/// The details are scrolled by a line or by twenty, never above the first.
pub proof fn law_details_are_scrolled(m: PackingModel)
    requires
        m.pin_input is None,
        m.focused_pane == FocusedPane::DetailPane,
        m.detail_scroll <= usize::MAX - 20,
    ensures
        m.step(InputAction::NavUp).0.detail_scroll == (if m.detail_scroll >= 1 {
            m.detail_scroll - 1
        } else {
            0
        }),
        m.step(InputAction::NavDown).0.detail_scroll == m.detail_scroll + 1,
        m.step(InputAction::PageUp).0.detail_scroll == (if m.detail_scroll >= 20 {
            m.detail_scroll - 20
        } else {
            0
        }),
        m.step(InputAction::PageDown).0.detail_scroll == m.detail_scroll + 20,
        m.step(InputAction::Home).0.detail_scroll == 0,
        m.step(InputAction::NavLeft).0 == (PackingModel {
            focused_pane: FocusedPane::MiddlePane,
            ..m
        }),
        m.step(InputAction::FocusLeft).0 == m.step(InputAction::NavLeft).0,
{
}

} // verus!
