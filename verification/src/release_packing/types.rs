//! The results of release packing, and how a screen holds them.
//!
//! A score comes as its text and, where it decides an order, as a number that
//! orders as the score does.

use vstd::prelude::*;

use crate::ordering::Ranked;
use crate::single::{ratio, share, share_of, Single};
use crate::text;

verus! {

/// A kind of result.
#[derive(Debug, Clone, Copy, PartialEq, Eq, Structural)]
pub enum PackingCategory {
    Perfect,
    FullMatches,
    Singles,
    Incomplete,
    /// Releases that were probably packed by mistake
    LowConfidence,
    Knots,
    /// Scored for releases, but lost to other files
    UnsolvedConflict,
    /// Recognised, but never the best for any release
    UnsolvedNoRelease,
    /// Not recognised
    UnsolvedNoMatch,
}

/// The pane that has the focus.
#[derive(Debug, Clone, Copy, PartialEq, Eq, Structural)]
pub enum FocusedPane {
    /// The releases or files
    LeftPane,
    /// The tracks of a release
    MiddlePane,
    /// The details of a track
    DetailPane,
}

/// A score as it is written, with a bar of up to twenty blocks.
#[derive(Debug)]
pub struct ScoreValue {
    pub text: String,
    pub bar: usize,
}

/// The model of a [`ScoreValue`].
pub struct ScoreValueModel {
    pub text: Seq<char>,
    pub bar: usize,
}

impl DeepView for ScoreValue {
    type V = ScoreValueModel;

    open spec fn deep_view(&self) -> ScoreValueModel {
        ScoreValueModel { text: self.text@, bar: self.bar }
    }
}

impl Clone for ScoreValue {
    fn clone(&self) -> (r: Self)
        ensures
            r.deep_view() == self.deep_view(),
    {
        ScoreValue { text: self.text.clone(), bar: self.bar }
    }
}

/// What a score is made of.
#[derive(Debug)]
pub struct PackingScoreBreakdown {
    pub acoustid_confidence: ScoreValue,
    pub duration_match: ScoreValue,
    pub title_match: ScoreValue,
    pub artist_match: ScoreValue,
    pub album_match: ScoreValue,
    pub track_number_match: ScoreValue,
}

/// The model of a [`PackingScoreBreakdown`].
pub struct BreakdownModel {
    pub acoustid_confidence: ScoreValueModel,
    pub duration_match: ScoreValueModel,
    pub title_match: ScoreValueModel,
    pub artist_match: ScoreValueModel,
    pub album_match: ScoreValueModel,
    pub track_number_match: ScoreValueModel,
}

impl DeepView for PackingScoreBreakdown {
    type V = BreakdownModel;

    open spec fn deep_view(&self) -> BreakdownModel {
        BreakdownModel {
            acoustid_confidence: self.acoustid_confidence.deep_view(),
            duration_match: self.duration_match.deep_view(),
            title_match: self.title_match.deep_view(),
            artist_match: self.artist_match.deep_view(),
            album_match: self.album_match.deep_view(),
            track_number_match: self.track_number_match.deep_view(),
        }
    }
}

impl Clone for PackingScoreBreakdown {
    fn clone(&self) -> (r: Self)
        ensures
            r.deep_view() == self.deep_view(),
    {
        PackingScoreBreakdown {
            acoustid_confidence: self.acoustid_confidence.clone(),
            duration_match: self.duration_match.clone(),
            title_match: self.title_match.clone(),
            artist_match: self.artist_match.clone(),
            album_match: self.album_match.clone(),
            track_number_match: self.track_number_match.clone(),
        }
    }
}

// ---------------------------------------------------------------------------
// Results as they come
// ---------------------------------------------------------------------------

/// A release that was packed.
#[derive(Debug)]
pub struct PackedReleaseData {
    pub release_id: String,
    pub release_title: String,
    pub release_artist: String,
    pub assigned_count: u32,
    pub total_tracks: u32,
    /// The share of recognised files, in percent, where it is too low
    pub low_confidence_acoustid_ratio: Option<String>,
    /// How well the albums match, where it is too low
    pub low_confidence_avg_album_match: Option<String>,
}

/// The model of a [`PackedReleaseData`].
pub struct PackedModel {
    pub release_id: Seq<char>,
    pub release_title: Seq<char>,
    pub release_artist: Seq<char>,
    pub assigned_count: u32,
    pub total_tracks: u32,
    pub low_confidence_acoustid_ratio: Option<Seq<char>>,
    pub low_confidence_avg_album_match: Option<Seq<char>>,
}

impl DeepView for PackedReleaseData {
    type V = PackedModel;

    open spec fn deep_view(&self) -> PackedModel {
        PackedModel {
            release_id: self.release_id@,
            release_title: self.release_title@,
            release_artist: self.release_artist@,
            assigned_count: self.assigned_count,
            total_tracks: self.total_tracks,
            low_confidence_acoustid_ratio: self.low_confidence_acoustid_ratio.deep_view(),
            low_confidence_avg_album_match: self.low_confidence_avg_album_match.deep_view(),
        }
    }
}

/// A file that was assigned to a track of a release.
#[derive(Debug)]
pub struct PackingRow {
    pub path: String,
    pub release_id: String,
    pub track_number: String,
    pub track_title: String,
    pub medium_position: u32,
    pub track_position: u32,
    pub medium_format: Option<String>,
    pub recording_id: String,
    /// The score with two decimals, and with three
    pub score: (String, String),
    pub score_breakdown: PackingScoreBreakdown,
    pub alternatives_count: u16,
}

/// The model of a [`PackingRow`].
pub struct PackingRowModel {
    pub path: Seq<char>,
    pub release_id: Seq<char>,
    pub track_number: Seq<char>,
    pub track_title: Seq<char>,
    pub medium_position: u32,
    pub track_position: u32,
    pub medium_format: Option<Seq<char>>,
    pub recording_id: Seq<char>,
    pub score: (Seq<char>, Seq<char>),
    pub score_breakdown: BreakdownModel,
    pub alternatives_count: u16,
}

impl DeepView for PackingRow {
    type V = PackingRowModel;

    open spec fn deep_view(&self) -> PackingRowModel {
        PackingRowModel {
            path: self.path@,
            release_id: self.release_id@,
            track_number: self.track_number@,
            track_title: self.track_title@,
            medium_position: self.medium_position,
            track_position: self.track_position,
            medium_format: self.medium_format.deep_view(),
            recording_id: self.recording_id@,
            score: self.score.deep_view(),
            score_breakdown: self.score_breakdown.deep_view(),
            alternatives_count: self.alternatives_count,
        }
    }
}

/// A track of a release that no file was assigned to.
#[derive(Debug)]
pub struct UnfilledReleaseSlotData {
    pub release_id: String,
    pub medium_pos: u32,
    pub track_pos: u32,
    pub track_title: String,
    pub recording_id: String,
}

/// The model of an [`UnfilledReleaseSlotData`].
pub struct UnfilledDataModel {
    pub release_id: Seq<char>,
    pub medium_pos: u32,
    pub track_pos: u32,
    pub track_title: Seq<char>,
    pub recording_id: Seq<char>,
}

impl DeepView for UnfilledReleaseSlotData {
    type V = UnfilledDataModel;

    open spec fn deep_view(&self) -> UnfilledDataModel {
        UnfilledDataModel {
            release_id: self.release_id@,
            medium_pos: self.medium_pos,
            track_pos: self.track_pos,
            track_title: self.track_title@,
            recording_id: self.recording_id@,
        }
    }
}

/// A release that lost to another.
#[derive(Debug)]
pub struct AlternativeReleasePackingData {
    pub winner_release_id: String,
    pub alternative_release_id: String,
    pub alternative_release_title: String,
    pub alternative_release_artist: String,
    /// A number that orders as the score does
    pub score_order: i64,
    pub alternative_score: String,
    pub winner_score: String,
    pub inode_count: u32,
}

/// The model of an [`AlternativeReleasePackingData`].
pub struct AlternativeDataModel {
    pub winner_release_id: Seq<char>,
    pub alternative_release_id: Seq<char>,
    pub alternative_release_title: Seq<char>,
    pub alternative_release_artist: Seq<char>,
    pub score_order: i64,
    pub alternative_score: Seq<char>,
    pub winner_score: Seq<char>,
    pub inode_count: u32,
}

impl DeepView for AlternativeReleasePackingData {
    type V = AlternativeDataModel;

    open spec fn deep_view(&self) -> AlternativeDataModel {
        AlternativeDataModel {
            winner_release_id: self.winner_release_id@,
            alternative_release_id: self.alternative_release_id@,
            alternative_release_title: self.alternative_release_title@,
            alternative_release_artist: self.alternative_release_artist@,
            score_order: self.score_order,
            alternative_score: self.alternative_score@,
            winner_score: self.winner_score@,
            inode_count: self.inode_count,
        }
    }
}

/// Where another artist for a sampler comes from.
#[derive(Debug, Clone, Copy, PartialEq, Eq, Structural)]
pub enum VariousArtistsOverrideSource {
    ExactAlternative,
    CompetingProposal,
}

/// Another artist for a sampler.
#[derive(Debug)]
pub struct VariousArtistsOverrideData {
    pub release_id: String,
    pub suggested_artist: String,
    pub source: VariousArtistsOverrideSource,
}

/// The model of a [`VariousArtistsOverrideData`].
pub struct OverrideDataModel {
    pub release_id: Seq<char>,
    pub suggested_artist: Seq<char>,
    pub source: VariousArtistsOverrideSource,
}

impl DeepView for VariousArtistsOverrideData {
    type V = OverrideDataModel;

    open spec fn deep_view(&self) -> OverrideDataModel {
        OverrideDataModel {
            release_id: self.release_id@,
            suggested_artist: self.suggested_artist@,
            source: self.source,
        }
    }
}

// ---------------------------------------------------------------------------
// Results as they are held
// ---------------------------------------------------------------------------

/// A file at its track.
#[derive(Debug)]
pub struct AssignedTrackInfo {
    pub path: String,
    pub track_number: String,
    pub track_title: String,
    pub medium_position: u32,
    pub track_position: u32,
    pub medium_format: Option<String>,
    pub recording_id: String,
    pub score: (String, String),
    pub score_breakdown: PackingScoreBreakdown,
    pub alternatives_count: u16,
}

/// The model of an [`AssignedTrackInfo`].
pub struct TrackInfoModel {
    pub path: Seq<char>,
    pub track_number: Seq<char>,
    pub track_title: Seq<char>,
    pub medium_position: u32,
    pub track_position: u32,
    pub medium_format: Option<Seq<char>>,
    pub recording_id: Seq<char>,
    pub score: (Seq<char>, Seq<char>),
    pub score_breakdown: BreakdownModel,
    pub alternatives_count: u16,
}

impl DeepView for AssignedTrackInfo {
    type V = TrackInfoModel;

    open spec fn deep_view(&self) -> TrackInfoModel {
        TrackInfoModel {
            path: self.path@,
            track_number: self.track_number@,
            track_title: self.track_title@,
            medium_position: self.medium_position,
            track_position: self.track_position,
            medium_format: self.medium_format.deep_view(),
            recording_id: self.recording_id@,
            score: self.score.deep_view(),
            score_breakdown: self.score_breakdown.deep_view(),
            alternatives_count: self.alternatives_count,
        }
    }
}

/// Whether a place of a release comes before another: the medium decides, then
/// the track.
pub open spec fn position_before(medium_a: u32, track_a: u32, medium_b: u32, track_b: u32) -> bool {
    medium_a < medium_b || (medium_a == medium_b && track_a < track_b)
}

/// Tracks stand in the order of the release.
impl Ranked for AssignedTrackInfo {
    open spec fn precedes(a: TrackInfoModel, b: TrackInfoModel) -> bool {
        position_before(a.medium_position, a.track_position, b.medium_position, b.track_position)
    }

    fn before(&self, other: &Self) -> (r: bool) {
        self.medium_position < other.medium_position || (self.medium_position
            == other.medium_position && self.track_position < other.track_position)
    }
}

/// A track without a file.
#[derive(Debug)]
pub struct UnfilledSlotInfo {
    pub medium_pos: u32,
    pub track_pos: u32,
    pub track_title: String,
    pub recording_id: String,
}

/// The model of an [`UnfilledSlotInfo`].
pub struct SlotModel {
    pub medium_pos: u32,
    pub track_pos: u32,
    pub track_title: Seq<char>,
    pub recording_id: Seq<char>,
}

impl DeepView for UnfilledSlotInfo {
    type V = SlotModel;

    open spec fn deep_view(&self) -> SlotModel {
        SlotModel {
            medium_pos: self.medium_pos,
            track_pos: self.track_pos,
            track_title: self.track_title@,
            recording_id: self.recording_id@,
        }
    }
}

/// Tracks without a file stand in the order of the release.
impl Ranked for UnfilledSlotInfo {
    open spec fn precedes(a: SlotModel, b: SlotModel) -> bool {
        position_before(a.medium_pos, a.track_pos, b.medium_pos, b.track_pos)
    }

    fn before(&self, other: &Self) -> (r: bool) {
        self.medium_pos < other.medium_pos || (self.medium_pos == other.medium_pos
            && self.track_pos < other.track_pos)
    }
}

/// A release that lost to the one that it is held under.
#[derive(Debug)]
pub struct AlternativeReleaseInfo {
    pub release_id: String,
    pub release_title: String,
    pub release_artist: String,
    pub score_order: i64,
    pub alternative_score: String,
    pub winner_score: String,
    pub inode_count: u32,
}

/// The model of an [`AlternativeReleaseInfo`].
pub struct AlternativeModel {
    pub release_id: Seq<char>,
    pub release_title: Seq<char>,
    pub release_artist: Seq<char>,
    pub score_order: i64,
    pub alternative_score: Seq<char>,
    pub winner_score: Seq<char>,
    pub inode_count: u32,
}

impl DeepView for AlternativeReleaseInfo {
    type V = AlternativeModel;

    open spec fn deep_view(&self) -> AlternativeModel {
        AlternativeModel {
            release_id: self.release_id@,
            release_title: self.release_title@,
            release_artist: self.release_artist@,
            score_order: self.score_order,
            alternative_score: self.alternative_score@,
            winner_score: self.winner_score@,
            inode_count: self.inode_count,
        }
    }
}

/// The best alternative stands first.
impl Ranked for AlternativeReleaseInfo {
    open spec fn precedes(a: AlternativeModel, b: AlternativeModel) -> bool {
        a.score_order > b.score_order
    }

    fn before(&self, other: &Self) -> (r: bool) {
        self.score_order > other.score_order
    }
}

/// Another artist for the release that it is held under.
#[derive(Debug)]
pub struct VaOverrideInfo {
    pub suggested_artist: String,
    pub source: String,
}

/// The model of a [`VaOverrideInfo`].
pub struct OverrideModel {
    pub suggested_artist: Seq<char>,
    pub source: Seq<char>,
}

impl DeepView for VaOverrideInfo {
    type V = OverrideModel;

    open spec fn deep_view(&self) -> OverrideModel {
        OverrideModel { suggested_artist: self.suggested_artist@, source: self.source@ }
    }
}

/// Why a release is held to be packed by mistake.
#[derive(Debug)]
pub struct LowConfidenceReason {
    pub acoustid_ratio: String,
    pub avg_album_match: String,
}

/// The model of a [`LowConfidenceReason`].
pub struct ReasonModel {
    pub acoustid_ratio: Seq<char>,
    pub avg_album_match: Seq<char>,
}

impl DeepView for LowConfidenceReason {
    type V = ReasonModel;

    open spec fn deep_view(&self) -> ReasonModel {
        ReasonModel {
            acoustid_ratio: self.acoustid_ratio@,
            avg_album_match: self.avg_album_match@,
        }
    }
}

/// A release with its files and gaps. Its coverage is the number of assigned
/// tracks over the number of tracks.
#[derive(Debug)]
pub struct ReleaseGroup {
    pub release_id: String,
    pub release_title: String,
    pub release_artist: String,
    pub tracks: Vec<AssignedTrackInfo>,
    pub unfilled: Vec<UnfilledSlotInfo>,
    pub assigned_count: u32,
    pub total_tracks: u32,
    pub alternatives: Vec<AlternativeReleaseInfo>,
    pub va_override: Option<VaOverrideInfo>,
    pub low_confidence_reason: Option<LowConfidenceReason>,
}

/// The model of a [`ReleaseGroup`].
pub struct ReleaseModel {
    pub release_id: Seq<char>,
    pub release_title: Seq<char>,
    pub release_artist: Seq<char>,
    pub tracks: Seq<TrackInfoModel>,
    pub unfilled: Seq<SlotModel>,
    pub assigned_count: u32,
    pub total_tracks: u32,
    pub alternatives: Seq<AlternativeModel>,
    pub va_override: Option<OverrideModel>,
    pub low_confidence_reason: Option<ReasonModel>,
}

impl DeepView for ReleaseGroup {
    type V = ReleaseModel;

    open spec fn deep_view(&self) -> ReleaseModel {
        ReleaseModel {
            release_id: self.release_id@,
            release_title: self.release_title@,
            release_artist: self.release_artist@,
            tracks: self.tracks.deep_view(),
            unfilled: self.unfilled.deep_view(),
            assigned_count: self.assigned_count,
            total_tracks: self.total_tracks,
            alternatives: self.alternatives.deep_view(),
            va_override: self.va_override.deep_view(),
            low_confidence_reason: self.low_confidence_reason.deep_view(),
        }
    }
}

impl ReleaseModel {
    /// The share of the tracks that have a file. A release without tracks is not
    /// covered at all.
    pub open spec fn coverage(self) -> nat {
        if self.total_tracks == 0 {
            0
        } else {
            share(self.assigned_count as nat, self.total_tracks as nat)
        }
    }

    /// Whether the coverage is at least a number of tenths.
    pub open spec fn covers_tenths(self, tenths: nat) -> bool {
        self.coverage() >= ratio(tenths, 10)
    }
}

impl ReleaseGroup {
    /// The share of the tracks that have a file.
    pub fn coverage(&self) -> (r: Single)
        ensures
            r.wf(),
            r.value() == self.deep_view().coverage(),
            -114 <= r.moved <= 67,
    {
        if self.total_tracks == 0 {
            Single::zero()
        } else {
            share_of(self.assigned_count as u64, self.total_tracks as u64)
        }
    }

    /// Whether the coverage is at least a number of tenths.
    pub fn covers_tenths(&self, tenths: u64) -> (r: bool)
        ensures
            r == self.deep_view().covers_tenths(tenths as nat),
    {
        !Single::of(tenths, 10).exceeds(self.coverage())
    }
}

/// The release with the greater coverage stands first, and of two with the same
/// the one with more tracks.
impl Ranked for ReleaseGroup {
    open spec fn precedes(a: ReleaseModel, b: ReleaseModel) -> bool {
        ||| a.coverage() > b.coverage()
        ||| a.coverage() == b.coverage() && a.total_tracks > b.total_tracks
    }

    fn before(&self, other: &Self) -> (r: bool) {
        let a: Single = self.coverage();
        let b: Single = other.coverage();
        a.exceeds(b) || (!b.exceeds(a) && self.total_tracks > other.total_tracks)
    }
}

/// What is known of a file without a release.
#[derive(Debug)]
pub struct UnmatchedCorpusTrackData {
    pub recording_ids: Vec<String>,
    pub considered_release_ids: Vec<String>,
}

/// A file without a release.
#[derive(Debug)]
pub struct UnmatchedEntry {
    pub path: String,
    pub data: UnmatchedCorpusTrackData,
}

/// The model of an [`UnmatchedEntry`].
pub struct UnmatchedModel {
    pub path: Seq<char>,
    pub recording_ids: Seq<Seq<char>>,
    pub considered_release_ids: Seq<Seq<char>>,
}

impl DeepView for UnmatchedEntry {
    type V = UnmatchedModel;

    open spec fn deep_view(&self) -> UnmatchedModel {
        UnmatchedModel {
            path: self.path@,
            recording_ids: self.data.recording_ids.deep_view(),
            considered_release_ids: self.data.considered_release_ids.deep_view(),
        }
    }
}

/// A line of the left pane.
#[derive(Debug, Clone, Copy, PartialEq, Eq, Structural)]
pub enum PackingListEntry {
    /// A release
    Release { idx: usize },
    /// A file without a release
    Unmatched { idx: usize },
}

} // verus!
