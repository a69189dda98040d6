//! Differences of quality among tracks, and what can be stashed for them.

use std::collections::HashSet;

use vstd::prelude::*;

use crate::corpus::{Track, TrackModel};
use crate::json::{object_text, write_object, Scalar, ScalarModel};
use crate::lists::{chosen, distinct, lemma_chosen_start, lemma_chosen_step, lemma_distinct_step, lemma_picked_start, lemma_picked_step, picked, put_new};
use crate::ordering::{in_order, sorted, Ranked};
use crate::paths;
use crate::screen::{nothing, put, put_all};
use crate::text::{self, decimal, lowercase, signed_decimal, uppercase};
use crate::widgets::{toggle, toggled};

verus! {

// ---------------------------------------------------------------------------
// Tiers
// ---------------------------------------------------------------------------

/// How good a format is, from the worst to the best.
#[derive(Debug, Clone, Copy, PartialEq, Eq, Structural, PartialOrd, Ord)]
pub enum QualityTier {
    /// MP3, WMA
    LegacyLossy,
    /// OGG, OPUS, M4A, AAC
    HighQualityLossy,
    /// FLAC, WAV, APE, WV, ALAC, AIFF
    Lossless,
}

impl QualityTier {
    /// The place in the order.
    #[verifier::allow_in_spec]
    pub fn rank(self) -> u8
        returns
            (match self {
                QualityTier::LegacyLossy => 1u8,
                QualityTier::HighQualityLossy => 2u8,
                QualityTier::Lossless => 3u8,
            }),
    {
        match self {
            QualityTier::LegacyLossy => 1,
            QualityTier::HighQualityLossy => 2,
            QualityTier::Lossless => 3,
        }
    }

    /// The tier of a file type in small letters. An unknown one is of the lowest.
    pub open spec fn of(t: Seq<char>) -> QualityTier {
        if t == "flac"@ || t == "wav"@ || t == "ape"@ || t == "wv"@ || t == "alac"@ || t
            == "aiff"@ {
            QualityTier::Lossless
        } else if t == "ogg"@ || t == "opus"@ || t == "m4a"@ || t == "aac"@ {
            QualityTier::HighQualityLossy
        } else {
            QualityTier::LegacyLossy
        }
    }

    /// The tier of a file type.
    pub fn from_file_type(file_type: &str) -> (r: Self)
        ensures
            r == QualityTier::of(lowercase(file_type@)),
    {
        let s: String = text::to_lowercase(file_type);
        let t: &str = s.as_str();
        if text::same(t, "flac") || text::same(t, "wav") || text::same(t, "ape") || text::same(
            t,
            "wv",
        ) || text::same(t, "alac") || text::same(t, "aiff") {
            QualityTier::Lossless
        } else if text::same(t, "ogg") || text::same(t, "opus") || text::same(t, "m4a")
            || text::same(t, "aac") {
            QualityTier::HighQualityLossy
        } else {
            QualityTier::LegacyLossy
        }
    }

    /// The name.
    pub fn name(&self) -> (r: &'static str)
        ensures
            r@ == (match *self {
                QualityTier::Lossless => "Lossless"@,
                QualityTier::HighQualityLossy => "High-Quality Lossy"@,
                QualityTier::LegacyLossy => "Legacy Lossy"@,
            }),
    {
        match self {
            QualityTier::Lossless => "Lossless",
            QualityTier::HighQualityLossy => "High-Quality Lossy",
            QualityTier::LegacyLossy => "Legacy Lossy",
        }
    }
}

/// Bitrates in groups, from the lowest.
#[derive(Debug, Clone, Copy, PartialEq, Eq, Structural, Hash, PartialOrd, Ord)]
pub enum BitrateTier {
    /// Below 128 kbps
    VeryLow,
    /// From 128 kbps
    Low,
    /// From 192 kbps
    Medium,
    /// From 256 to 320 kbps
    High,
    /// Above 320 kbps
    VeryHigh,
}

impl BitrateTier {
    /// The place in the order.
    #[verifier::allow_in_spec]
    pub fn rank(self) -> u8
        returns
            (match self {
                BitrateTier::VeryLow => 0u8,
                BitrateTier::Low => 1u8,
                BitrateTier::Medium => 2u8,
                BitrateTier::High => 3u8,
                BitrateTier::VeryHigh => 4u8,
            }),
    {
        match self {
            BitrateTier::VeryLow => 0,
            BitrateTier::Low => 1,
            BitrateTier::Medium => 2,
            BitrateTier::High => 3,
            BitrateTier::VeryHigh => 4,
        }
    }

    /// The tier of a bitrate.
    #[verifier::allow_in_spec]
    pub fn from_bitrate(kbps: i32) -> Self
        returns
            (if kbps < 128 {
                BitrateTier::VeryLow
            } else if kbps < 192 {
                BitrateTier::Low
            } else if kbps < 256 {
                BitrateTier::Medium
            } else if kbps <= 320 {
                BitrateTier::High
            } else {
                BitrateTier::VeryHigh
            }),
    {
        if kbps < 128 {
            BitrateTier::VeryLow
        } else if kbps < 192 {
            BitrateTier::Low
        } else if kbps < 256 {
            BitrateTier::Medium
        } else if kbps <= 320 {
            BitrateTier::High
        } else {
            BitrateTier::VeryHigh
        }
    }

    /// The name.
    pub open spec fn words(self) -> Seq<char> {
        match self {
            BitrateTier::VeryLow => "<128 kbps"@,
            BitrateTier::Low => "128-192 kbps"@,
            BitrateTier::Medium => "192-256 kbps"@,
            BitrateTier::High => "256-320 kbps"@,
            BitrateTier::VeryHigh => ">320 kbps"@,
        }
    }

    /// The name.
    pub fn name(&self) -> (r: &'static str)
        ensures
            r@ == self.words(),
    {
        match self {
            BitrateTier::VeryLow => "<128 kbps",
            BitrateTier::Low => "128-192 kbps",
            BitrateTier::Medium => "192-256 kbps",
            BitrateTier::High => "256-320 kbps",
            BitrateTier::VeryHigh => ">320 kbps",
        }
    }
}

/// A higher bitrate is never of a lower tier.
pub proof fn law_tiers_follow_bitrates(a: i32, b: i32)
    requires
        a <= b,
    ensures
        BitrateTier::from_bitrate(a).rank() <= BitrateTier::from_bitrate(b).rank(),
{
}

// ---------------------------------------------------------------------------
// Tracks
// ---------------------------------------------------------------------------

/// What the quality of a track is judged by.
#[derive(Debug)]
pub struct TrackQualityInfo {
    pub track_id: i64,
    pub path: String,
    pub file_type: String,
    pub bitrate_kbps: Option<i32>,
    pub sample_rate: Option<i32>,
    pub quality_tier: QualityTier,
}

/// The model of a [`TrackQualityInfo`].
pub struct QualityInfoModel {
    pub track_id: i64,
    pub path: Seq<char>,
    pub file_type: Seq<char>,
    pub bitrate_kbps: Option<i32>,
    pub sample_rate: Option<i32>,
    pub quality_tier: QualityTier,
}

impl DeepView for TrackQualityInfo {
    type V = QualityInfoModel;

    open spec fn deep_view(&self) -> QualityInfoModel {
        QualityInfoModel {
            track_id: self.track_id,
            path: self.path@,
            file_type: self.file_type@,
            bitrate_kbps: self.bitrate_kbps,
            sample_rate: self.sample_rate,
            quality_tier: self.quality_tier,
        }
    }
}

impl Clone for TrackQualityInfo {
    fn clone(&self) -> (r: Self)
        ensures
            r.deep_view() == self.deep_view(),
    {
        TrackQualityInfo {
            track_id: self.track_id,
            path: self.path.clone(),
            file_type: self.file_type.clone(),
            bitrate_kbps: self.bitrate_kbps,
            sample_rate: self.sample_rate,
            quality_tier: self.quality_tier,
        }
    }
}

/// What the quality of a track is judged by.
pub open spec fn judged() -> spec_fn(TrackModel) -> QualityInfoModel {
    |t: TrackModel|
        QualityInfoModel {
            track_id: match t.id {
                Some(id) => id,
                None => 0,
            },
            path: t.path,
            file_type: t.file_type,
            bitrate_kbps: t.bitrate_kbps,
            sample_rate: t.sample_rate,
            quality_tier: QualityTier::of(lowercase(t.file_type)),
        }
}

impl TrackQualityInfo {
    /// What the quality of a track is judged by. A track without a number
    /// counts as number 0.
    pub fn from(track: &Track) -> (r: Self)
        ensures
            r.deep_view() == judged()(track.deep_view()),
    {
        TrackQualityInfo {
            track_id: match track.id {
                Some(id) => id,
                None => 0,
            },
            path: track.path.clone(),
            file_type: track.file_type.clone(),
            bitrate_kbps: track.bitrate_kbps,
            sample_rate: track.sample_rate,
            quality_tier: QualityTier::from_file_type(track.file_type.as_str()),
        }
    }
}

/// Tracks of one file type.
#[derive(Debug)]
pub struct TypeGroup {
    /// The type in small letters
    pub file_type: String,
    pub tracks: Vec<TrackQualityInfo>,
}

/// The model of a [`TypeGroup`].
pub struct TypeGroupModel {
    pub file_type: Seq<char>,
    pub tracks: Seq<QualityInfoModel>,
}

impl DeepView for TypeGroup {
    type V = TypeGroupModel;

    open spec fn deep_view(&self) -> TypeGroupModel {
        TypeGroupModel { file_type: self.file_type@, tracks: self.tracks.deep_view() }
    }
}

/// Tracks of one tier of bitrates.
#[derive(Debug)]
pub struct TierGroup {
    pub tier: BitrateTier,
    pub tracks: Vec<TrackQualityInfo>,
}

/// The model of a [`TierGroup`].
pub struct TierGroupModel {
    pub tier: BitrateTier,
    pub tracks: Seq<QualityInfoModel>,
}

impl DeepView for TierGroup {
    type V = TierGroupModel;

    open spec fn deep_view(&self) -> TierGroupModel {
        TierGroupModel { tier: self.tier, tracks: self.tracks.deep_view() }
    }
}

/// What was found out about tracks.
#[derive(Debug)]
pub struct QualityAnalysis {
    /// The file types, each once
    pub file_types: Vec<String>,
    /// The bitrates, each once, from the highest
    pub bitrates: Vec<i32>,
    /// The tracks by file type, in the order of `file_types`
    pub tracks_by_type: Vec<TypeGroup>,
    /// The tracks by tier of bitrate, from the lowest; no group is empty
    pub tracks_by_bitrate_tier: Vec<TierGroup>,
    /// The highest bitrate
    pub max_bitrate: Option<i32>,
    /// The lowest bitrate
    pub min_bitrate: Option<i32>,
    /// Whether there are differences worth resolving
    pub has_quality_differences: bool,
}

/// The model of a [`QualityAnalysis`].
pub struct AnalysisModel {
    pub file_types: Seq<Seq<char>>,
    pub bitrates: Seq<i32>,
    pub tracks_by_type: Seq<TypeGroupModel>,
    pub tracks_by_bitrate_tier: Seq<TierGroupModel>,
    pub max_bitrate: Option<i32>,
    pub min_bitrate: Option<i32>,
    pub has_quality_differences: bool,
}

impl DeepView for QualityAnalysis {
    type V = AnalysisModel;

    open spec fn deep_view(&self) -> AnalysisModel {
        AnalysisModel {
            file_types: self.file_types.deep_view(),
            bitrates: self.bitrates@,
            tracks_by_type: self.tracks_by_type.deep_view(),
            tracks_by_bitrate_tier: self.tracks_by_bitrate_tier.deep_view(),
            max_bitrate: self.max_bitrate,
            min_bitrate: self.min_bitrate,
            has_quality_differences: self.has_quality_differences,
        }
    }
}

// ---------------------------------------------------------------------------
// Analysis
// ---------------------------------------------------------------------------

/// The file type of a track in small letters.
pub open spec fn small_type() -> spec_fn(QualityInfoModel) -> Seq<char> {
    |t: QualityInfoModel| lowercase(t.file_type)
}

/// The condition of being of a file type.
pub open spec fn is_type(file_type: Seq<char>) -> spec_fn(QualityInfoModel) -> bool {
    |t: QualityInfoModel| lowercase(t.file_type) == file_type
}

/// The condition of having a bitrate.
pub open spec fn has_bitrate() -> spec_fn(QualityInfoModel) -> bool {
    |t: QualityInfoModel| t.bitrate_kbps is Some
}

/// The bitrate.
pub open spec fn bitrate() -> spec_fn(QualityInfoModel) -> i32 {
    |t: QualityInfoModel| t.bitrate_kbps->0
}

/// The condition of having a bitrate of a tier.
pub open spec fn in_tier(tier: BitrateTier) -> spec_fn(QualityInfoModel) -> bool {
    |t: QualityInfoModel|
        t.bitrate_kbps matches Some(kbps) && BitrateTier::from_bitrate(kbps) == tier
}

/// A bitrate, to be ordered from the highest.
#[derive(Debug, Clone, Copy)]
pub struct Kbps {
    pub value: i32,
}

impl DeepView for Kbps {
    type V = i32;

    open spec fn deep_view(&self) -> i32 {
        self.value
    }
}

impl Ranked for Kbps {
    open spec fn precedes(a: i32, b: i32) -> bool {
        a > b
    }

    fn before(&self, other: &Self) -> (r: bool) {
        self.value > other.value
    }
}

/// From the highest.
pub open spec fn falling() -> spec_fn(i32, i32) -> bool {
    |a: i32, b: i32| Kbps::precedes(a, b)
}

/// The tracks of a file type.
pub open spec fn type_group(infos: Seq<QualityInfoModel>) -> spec_fn(Seq<char>) -> TypeGroupModel {
    |t: Seq<char>| TypeGroupModel { file_type: t, tracks: chosen(infos, is_type(t)) }
}

/// The tracks of a tier.
pub open spec fn tier_group(infos: Seq<QualityInfoModel>, tier: BitrateTier) -> TierGroupModel {
    TierGroupModel { tier, tracks: chosen(infos, in_tier(tier)) }
}

/// The condition of not being empty.
pub open spec fn has_tracks() -> spec_fn(TierGroupModel) -> bool {
    |g: TierGroupModel| g.tracks.len() > 0
}

/// The tracks by tier, from the lowest.
pub open spec fn tier_groups(infos: Seq<QualityInfoModel>) -> Seq<TierGroupModel> {
    chosen(
        crate::screen::list5(
            tier_group(infos, BitrateTier::VeryLow),
            tier_group(infos, BitrateTier::Low),
            tier_group(infos, BitrateTier::Medium),
            tier_group(infos, BitrateTier::High),
            tier_group(infos, BitrateTier::VeryHigh),
        ),
        has_tracks(),
    )
}

/// Whether the lowest bitrate is under seven tenths of the highest.
pub open spec fn spread(max: Option<i32>, min: Option<i32>) -> bool {
    match (max, min) {
        (Some(max), Some(min)) => max > 0 && 10 * min < 7 * max,
        _ => false,
    }
}

/// The bitrates of tracks, each once, from the highest.
pub open spec fn bitrates_of(infos: Seq<QualityInfoModel>) -> Seq<i32> {
    in_order(distinct(picked(infos, has_bitrate(), bitrate())), falling())
}

/// What is found out about tracks.
pub open spec fn analysis(tracks: Seq<TrackModel>) -> AnalysisModel {
    let infos = tracks.map_values(judged());
    let file_types = distinct(infos.map_values(small_type()));
    let bitrates = bitrates_of(infos);
    let max_bitrate = if bitrates.len() > 0 {
        Some(bitrates[0])
    } else {
        None
    };
    let min_bitrate = if bitrates.len() > 0 {
        Some(bitrates.last())
    } else {
        None
    };
    AnalysisModel {
        file_types,
        bitrates,
        tracks_by_type: file_types.map_values(type_group(infos)),
        tracks_by_bitrate_tier: tier_groups(infos),
        max_bitrate,
        min_bitrate,
        has_quality_differences: file_types.len() > 1 || spread(max_bitrate, min_bitrate),
    }
}

fn judge_all(tracks: &Vec<Track>) -> (r: Vec<TrackQualityInfo>)
    ensures
        r.deep_view() == tracks.deep_view().map_values(judged()),
{
    let ghost s = tracks.deep_view();
    let mut out: Vec<TrackQualityInfo> = nothing();
    let mut i: usize = 0;
    while i < tracks.len()
        invariant
            i <= tracks.len(),
            s == tracks.deep_view(),
            out.len() == i,
            forall|k: int| 0 <= k < i ==> (#[trigger] out[k]).deep_view() == judged()(s[k]),
        decreases tracks.len() - i,
    {
        out.push(TrackQualityInfo::from(&tracks[i]));
        i = i + 1;
    }
    proof {
        assert(out.deep_view() =~= s.map_values(judged()));
    }
    out
}

fn types_of(infos: &Vec<TrackQualityInfo>) -> (r: Vec<String>)
    ensures
        r.deep_view() == distinct(infos.deep_view().map_values(small_type())),
{
    let ghost s = infos.deep_view().map_values(small_type());
    let mut out: Vec<String> = nothing();
    proof {
        assert(s.take(0) =~= Seq::<Seq<char>>::empty());
    }
    let mut i: usize = 0;
    while i < infos.len()
        invariant
            i <= infos.len(),
            s == infos.deep_view().map_values(small_type()),
            out.deep_view() == distinct(s.take(i as int)),
        decreases infos.len() - i,
    {
        proof {
            lemma_distinct_step(s, i as int);
            assert(s[i as int] == lowercase(infos[i as int].file_type@));
        }
        put_new(&mut out, text::to_lowercase(infos[i].file_type.as_str()));
        i = i + 1;
    }
    proof {
        assert(s.take(s.len() as int) =~= s);
    }
    out
}

fn infos_of_type(infos: &Vec<TrackQualityInfo>, file_type: &str) -> (r: Vec<TrackQualityInfo>)
    ensures
        r.deep_view() == chosen(infos.deep_view(), is_type(file_type@)),
{
    let ghost s = infos.deep_view();
    let mut out: Vec<TrackQualityInfo> = nothing();
    proof {
        lemma_chosen_start(s, is_type(file_type@));
    }
    let mut i: usize = 0;
    while i < infos.len()
        invariant
            i <= infos.len(),
            s == infos.deep_view(),
            out.deep_view() == chosen(s.take(i as int), is_type(file_type@)),
        decreases infos.len() - i,
    {
        proof {
            lemma_chosen_step(s, i as int, is_type(file_type@));
        }
        if text::same(text::to_lowercase(infos[i].file_type.as_str()).as_str(), file_type) {
            put(&mut out, infos[i].clone());
        }
        i = i + 1;
    }
    proof {
        assert(s.take(s.len() as int) =~= s);
    }
    out
}

fn infos_in_tier(infos: &Vec<TrackQualityInfo>, tier: BitrateTier) -> (r: Vec<TrackQualityInfo>)
    ensures
        r.deep_view() == chosen(infos.deep_view(), in_tier(tier)),
{
    let ghost s = infos.deep_view();
    let mut out: Vec<TrackQualityInfo> = nothing();
    proof {
        lemma_chosen_start(s, in_tier(tier));
    }
    let mut i: usize = 0;
    while i < infos.len()
        invariant
            i <= infos.len(),
            s == infos.deep_view(),
            out.deep_view() == chosen(s.take(i as int), in_tier(tier)),
        decreases infos.len() - i,
    {
        proof {
            lemma_chosen_step(s, i as int, in_tier(tier));
        }
        if let Some(kbps) = infos[i].bitrate_kbps {
            if BitrateTier::from_bitrate(kbps) == tier {
                put(&mut out, infos[i].clone());
            }
        }
        i = i + 1;
    }
    proof {
        assert(s.take(s.len() as int) =~= s);
    }
    out
}

fn put_tier(groups: &mut Vec<TierGroup>, infos: &Vec<TrackQualityInfo>, tier: BitrateTier)
    ensures
        final(groups).deep_view() == (if tier_group(infos.deep_view(), tier).tracks.len() > 0 {
            old(groups).deep_view().push(tier_group(infos.deep_view(), tier))
        } else {
            old(groups).deep_view()
        }),
{
    let tracks: Vec<TrackQualityInfo> = infos_in_tier(infos, tier);
    proof {
        assert(tracks.deep_view().len() == tracks.len());
    }
    if tracks.len() > 0 {
        put(groups, TierGroup { tier, tracks });
    }
}

fn group_by_tier(infos: &Vec<TrackQualityInfo>) -> (r: Vec<TierGroup>)
    ensures
        r.deep_view() == tier_groups(infos.deep_view()),
{
    let mut out: Vec<TierGroup> = nothing();
    put_tier(&mut out, infos, BitrateTier::VeryLow);
    put_tier(&mut out, infos, BitrateTier::Low);
    put_tier(&mut out, infos, BitrateTier::Medium);
    put_tier(&mut out, infos, BitrateTier::High);
    put_tier(&mut out, infos, BitrateTier::VeryHigh);
    proof {
        let s = infos.deep_view();
        let all = crate::screen::list5(
            tier_group(s, BitrateTier::VeryLow),
            tier_group(s, BitrateTier::Low),
            tier_group(s, BitrateTier::Medium),
            tier_group(s, BitrateTier::High),
            tier_group(s, BitrateTier::VeryHigh),
        );
        lemma_chosen_start(all, has_tracks());
        lemma_chosen_step(all, 0, has_tracks());
        lemma_chosen_step(all, 1, has_tracks());
        lemma_chosen_step(all, 2, has_tracks());
        lemma_chosen_step(all, 3, has_tracks());
        lemma_chosen_step(all, 4, has_tracks());
        assert(all.take(5) =~= all);
    }
    out
}

/// The bitrates, each once, in the order of the tracks.
fn each_bitrate(infos: &Vec<TrackQualityInfo>) -> (r: Vec<Kbps>)
    ensures
        r.deep_view() == distinct(picked(infos.deep_view(), has_bitrate(), bitrate())),
{
    let ghost s = infos.deep_view();
    let mut out: Vec<Kbps> = nothing();
    proof {
        lemma_picked_start(s, has_bitrate(), bitrate());
    }
    let mut i: usize = 0;
    while i < infos.len()
        invariant
            i <= infos.len(),
            s == infos.deep_view(),
            out.deep_view() == distinct(picked(s.take(i as int), has_bitrate(), bitrate())),
        decreases infos.len() - i,
    {
        let ghost before = picked(s.take(i as int), has_bitrate(), bitrate());
        proof {
            lemma_picked_step(s, i as int, has_bitrate(), bitrate());
        }
        if let Some(kbps) = infos[i].bitrate_kbps {
            let mut known: bool = false;
            let mut j: usize = 0;
            while j < out.len()
                invariant
                    j <= out.len(),
                    known == exists|k: int| 0 <= k < j && #[trigger] out[k].value == kbps,
                decreases out.len() - j,
            {
                if out[j].value == kbps {
                    known = true;
                }
                j = j + 1;
            }
            proof {
                assert(before.push(kbps).drop_last() =~= before);
                assert(known == out.deep_view().contains(kbps)) by {
                    if known {
                        let k = choose|k: int| 0 <= k < out.len() && #[trigger] out[k].value
                            == kbps;
                        assert(out.deep_view()[k] == kbps);
                    }
                    if out.deep_view().contains(kbps) {
                        let k = choose|k: int|
                            0 <= k < out.deep_view().len() && out.deep_view()[k] == kbps;
                        assert(out[k].value == kbps);
                    }
                }
            }
            if !known {
                put(&mut out, Kbps { value: kbps });
            }
        }
        i = i + 1;
    }
    proof {
        assert(s.take(s.len() as int) =~= s);
    }
    out
}

fn list_bitrates(infos: &Vec<TrackQualityInfo>) -> (r: Vec<i32>)
    ensures
        r@ == bitrates_of(infos.deep_view()),
{
    let rates: Vec<Kbps> = sorted(each_bitrate(infos));
    let mut out: Vec<i32> = Vec::new();
    let mut i: usize = 0;
    while i < rates.len()
        invariant
            i <= rates.len(),
            out.len() == i,
            forall|k: int| 0 <= k < i ==> out[k] == rates.deep_view()[k],
        decreases rates.len() - i,
    {
        out.push(rates[i].value);
        i = i + 1;
    }
    proof {
        assert(out@ =~= rates.deep_view());
    }
    out
}

/// Finds out about tracks.
pub fn analyze_quality(tracks: &Vec<Track>) -> (r: QualityAnalysis)
    ensures
        r.deep_view() == analysis(tracks.deep_view()),
{
    let infos: Vec<TrackQualityInfo> = judge_all(tracks);
    let file_types: Vec<String> = types_of(&infos);
    let ghost ts = file_types.deep_view();
    let ghost want = ts.map_values(type_group(infos.deep_view()));
    let mut tracks_by_type: Vec<TypeGroup> = nothing();
    let mut i: usize = 0;
    while i < file_types.len()
        invariant
            i <= file_types.len(),
            ts == file_types.deep_view(),
            want == ts.map_values(type_group(infos.deep_view())),
            tracks_by_type.len() == i,
            forall|k: int| 0 <= k < i ==> (#[trigger] tracks_by_type[k]).deep_view() == want[k],
        decreases file_types.len() - i,
    {
        let group: TypeGroup = TypeGroup {
            file_type: file_types[i].clone(),
            tracks: infos_of_type(&infos, file_types[i].as_str()),
        };
        proof {
            assert(group.deep_view() == want[i as int]);
        }
        tracks_by_type.push(group);
        i = i + 1;
    }
    proof {
        assert(tracks_by_type.deep_view() =~= want);
        assert(ts.len() == file_types.len());
    }
    let bitrates: Vec<i32> = list_bitrates(&infos);
    let max_bitrate: Option<i32> = if bitrates.len() > 0 {
        Some(bitrates[0])
    } else {
        None
    };
    let min_bitrate: Option<i32> = if bitrates.len() > 0 {
        Some(bitrates[bitrates.len() - 1])
    } else {
        None
    };
    let apart: bool = match (max_bitrate, min_bitrate) {
        (Some(max), Some(min)) => max > 0 && 10 * (min as i64) < 7 * (max as i64),
        _ => false,
    };
    let has_quality_differences: bool = file_types.len() > 1 || apart;
    QualityAnalysis {
        file_types,
        bitrates,
        tracks_by_type,
        tracks_by_bitrate_tier: group_by_tier(&infos),
        max_bitrate,
        min_bitrate,
        has_quality_differences,
    }
}

// ---------------------------------------------------------------------------
// Options
// ---------------------------------------------------------------------------

/// What can be stashed.
#[derive(Debug, PartialEq, Eq)]
pub enum QualityResolutionOption {
    /// All tracks with a bitrate below the highest
    StashLowerBitrates {
        track_count: usize,
        threshold: i32,
    },
    /// All tracks of a file type
    StashFileType {
        file_type: String,
        track_count: usize,
        tier: QualityTier,
    },
    /// All tracks below a tier
    StashBelowTier {
        tier: BitrateTier,
        track_count: usize,
    },
}

/// The model of a [`QualityResolutionOption`].
pub enum OptionModel {
    StashLowerBitrates { track_count: usize, threshold: i32 },
    StashFileType { file_type: Seq<char>, track_count: usize, tier: QualityTier },
    StashBelowTier { tier: BitrateTier, track_count: usize },
}

impl DeepView for QualityResolutionOption {
    type V = OptionModel;

    open spec fn deep_view(&self) -> OptionModel {
        match self {
            QualityResolutionOption::StashLowerBitrates { track_count, threshold } => {
                OptionModel::StashLowerBitrates {
                    track_count: *track_count,
                    threshold: *threshold,
                }
            },
            QualityResolutionOption::StashFileType { file_type, track_count, tier } => {
                OptionModel::StashFileType {
                    file_type: file_type@,
                    track_count: *track_count,
                    tier: *tier,
                }
            },
            QualityResolutionOption::StashBelowTier { tier, track_count } => {
                OptionModel::StashBelowTier { tier: *tier, track_count: *track_count }
            },
        }
    }
}

impl OptionModel {
    /// What the option says.
    pub open spec fn words(self) -> Seq<char> {
        match self {
            OptionModel::StashLowerBitrates { track_count, threshold } => {
                "Stash lower bitrates (<"@ + signed_decimal(threshold as int) + " kbps) ["@
                    + decimal(track_count as nat) + " tracks]"@
            },
            OptionModel::StashFileType { file_type, track_count, .. } => {
                "Stash "@ + uppercase(file_type) + " ["@ + decimal(track_count as nat)
                    + " tracks]"@
            },
            OptionModel::StashBelowTier { tier, track_count } => {
                "Stash "@ + tier.words() + " ["@ + decimal(track_count as nat) + " tracks]"@
            },
        }
    }

    /// What a button for it says.
    pub open spec fn short_words(self) -> Seq<char> {
        match self {
            OptionModel::StashLowerBitrates { .. } => "Stash lower bitrates"@,
            OptionModel::StashFileType { file_type, .. } => "Stash "@ + uppercase(file_type),
            OptionModel::StashBelowTier { tier, .. } => "Stash "@ + tier.words(),
        }
    }
}

impl QualityResolutionOption {
    /// What the option says.
    pub fn label(&self) -> (r: String)
        ensures
            r@ == self.deep_view().words(),
    {
        match self {
            QualityResolutionOption::StashLowerBitrates { track_count, threshold } => text::cat5(
                "Stash lower bitrates (<",
                text::signed(*threshold as i64).as_str(),
                " kbps) [",
                text::count(*track_count).as_str(),
                " tracks]",
            ),
            QualityResolutionOption::StashFileType { file_type, track_count, .. } => text::cat5(
                "Stash ",
                text::to_uppercase(file_type.as_str()).as_str(),
                " [",
                text::count(*track_count).as_str(),
                " tracks]",
            ),
            QualityResolutionOption::StashBelowTier { tier, track_count } => text::cat5(
                "Stash ",
                tier.name(),
                " [",
                text::count(*track_count).as_str(),
                " tracks]",
            ),
        }
    }

    /// What a button for it says.
    pub fn short_label(&self) -> (r: String)
        ensures
            r@ == self.deep_view().short_words(),
    {
        match self {
            QualityResolutionOption::StashLowerBitrates { .. } => "Stash lower bitrates".to_owned(),
            QualityResolutionOption::StashFileType { file_type, .. } => text::cat2(
                "Stash ",
                text::to_uppercase(file_type.as_str()).as_str(),
            ),
            QualityResolutionOption::StashBelowTier { tier, .. } => text::cat2(
                "Stash ",
                tier.name(),
            ),
        }
    }
}

/// The tracks of the groups below a tier, group after group.
pub open spec fn tracks_below(groups: Seq<TierGroupModel>, tier: BitrateTier) -> Seq<
    QualityInfoModel,
>
    decreases groups.len(),
{
    if groups.len() == 0 {
        Seq::empty()
    } else {
        tracks_below(groups.drop_last(), tier) + (if groups.last().tier.rank() < tier.rank() {
            groups.last().tracks
        } else {
            Seq::empty()
        })
    }
}

/// The condition of having a bitrate below another.
pub open spec fn slower(kbps: i32) -> spec_fn(QualityInfoModel) -> bool {
    |t: QualityInfoModel| t.bitrate_kbps matches Some(b) && b < kbps
}

/// The tracks of the groups with a bitrate below another, group after group.
pub open spec fn tracks_slower(groups: Seq<TierGroupModel>, kbps: i32) -> Seq<QualityInfoModel>
    decreases groups.len(),
{
    if groups.len() == 0 {
        Seq::empty()
    } else {
        tracks_slower(groups.drop_last(), kbps) + chosen(groups.last().tracks, slower(kbps))
    }
}

/// A file type that can be stashed.
#[derive(Debug)]
pub struct TypeOption {
    pub file_type: String,
    pub track_count: usize,
    pub tier: QualityTier,
}

/// The model of a [`TypeOption`].
pub struct TypeOptionModel {
    pub file_type: Seq<char>,
    pub track_count: usize,
    pub tier: QualityTier,
}

impl DeepView for TypeOption {
    type V = TypeOptionModel;

    open spec fn deep_view(&self) -> TypeOptionModel {
        TypeOptionModel {
            file_type: self.file_type@,
            track_count: self.track_count,
            tier: self.tier,
        }
    }
}

/// The worst format stands first.
impl Ranked for TypeOption {
    open spec fn precedes(a: TypeOptionModel, b: TypeOptionModel) -> bool {
        a.tier.rank() < b.tier.rank()
    }

    fn before(&self, other: &Self) -> (r: bool) {
        self.tier.rank() < other.tier.rank()
    }
}

/// Whether one format is worse than another.
pub open spec fn worse() -> spec_fn(TypeOptionModel, TypeOptionModel) -> bool {
    |a: TypeOptionModel, b: TypeOptionModel| TypeOption::precedes(a, b)
}

/// A group as what can be stashed.
pub open spec fn type_option() -> spec_fn(TypeGroupModel) -> TypeOptionModel {
    |g: TypeGroupModel|
        TypeOptionModel {
            file_type: g.file_type,
            track_count: g.tracks.len() as usize,
            tier: QualityTier::of(lowercase(g.file_type)),
        }
}

/// The option to stash a file type.
pub open spec fn stash_type() -> spec_fn(TypeOptionModel) -> OptionModel {
    |t: TypeOptionModel|
        OptionModel::StashFileType {
            file_type: t.file_type,
            track_count: t.track_count,
            tier: t.tier,
        }
}

/// A list without its last item.
pub open spec fn but_last<T>(s: Seq<T>) -> Seq<T> {
    if s.len() == 0 {
        s
    } else {
        s.drop_last()
    }
}

impl AnalysisModel {
    /// Whether the lowest bitrate is under nine tenths of the highest.
    pub open spec fn uneven(self) -> bool {
        match (self.max_bitrate, self.min_bitrate) {
            (Some(max), Some(min)) => max > min && max >= 0 && 10 * min < 9 * max,
            _ => false,
        }
    }

    /// The option on bitrates: there where they are uneven, and a track has a
    /// lower one than the highest.
    pub open spec fn bitrate_options(self) -> Seq<OptionModel> {
        if self.uneven() {
            let max = self.max_bitrate->0;
            let n = tracks_slower(self.tracks_by_bitrate_tier, max).len();
            if n > 0 {
                seq![
                    OptionModel::StashLowerBitrates { track_count: n as usize, threshold: max },
                ]
            } else {
                Seq::empty()
            }
        } else {
            Seq::empty()
        }
    }

    /// The options on file types: there where there are several, for each but
    /// the best.
    pub open spec fn type_options(self) -> Seq<OptionModel> {
        if self.file_types.len() > 1 {
            but_last(
                in_order(self.tracks_by_type.map_values(type_option()), worse()),
            ).map_values(stash_type())
        } else {
            Seq::empty()
        }
    }

    /// What can be stashed.
    pub open spec fn options(self) -> Seq<OptionModel> {
        self.bitrate_options() + self.type_options()
    }
}

/// The tracks of the groups below a tier.
fn list_below(groups: &Vec<TierGroup>, tier: BitrateTier) -> (r: Vec<TrackQualityInfo>)
    ensures
        r.deep_view() == tracks_below(groups.deep_view(), tier),
{
    let ghost s = groups.deep_view();
    let mut out: Vec<TrackQualityInfo> = nothing();
    proof {
        assert(s.take(0) =~= Seq::<TierGroupModel>::empty());
    }
    let mut i: usize = 0;
    while i < groups.len()
        invariant
            i <= groups.len(),
            s == groups.deep_view(),
            out.deep_view() == tracks_below(s.take(i as int), tier),
        decreases groups.len() - i,
    {
        proof {
            assert(s.take(i as int + 1).drop_last() =~= s.take(i as int));
            assert(s.take(i as int + 1).last() == s[i as int]);
            assert(out.deep_view() + Seq::<QualityInfoModel>::empty() =~= out.deep_view());
        }
        if groups[i].tier.rank() < tier.rank() {
            put_all(&mut out, copy_infos(&groups[i].tracks));
        }
        i = i + 1;
    }
    proof {
        assert(s.take(s.len() as int) =~= s);
    }
    out
}

/// The tracks with a bitrate below another.
fn choose_slower(v: &Vec<TrackQualityInfo>, kbps: i32) -> (r: Vec<TrackQualityInfo>)
    ensures
        r.deep_view() == chosen(v.deep_view(), slower(kbps)),
{
    let ghost s = v.deep_view();
    let mut out: Vec<TrackQualityInfo> = nothing();
    proof {
        lemma_chosen_start(s, slower(kbps));
    }
    let mut i: usize = 0;
    while i < v.len()
        invariant
            i <= v.len(),
            s == v.deep_view(),
            out.deep_view() == chosen(s.take(i as int), slower(kbps)),
        decreases v.len() - i,
    {
        proof {
            lemma_chosen_step(s, i as int, slower(kbps));
        }
        if let Some(b) = v[i].bitrate_kbps {
            if b < kbps {
                put(&mut out, v[i].clone());
            }
        }
        i = i + 1;
    }
    proof {
        assert(s.take(s.len() as int) =~= s);
    }
    out
}

/// The tracks of the groups with a bitrate below another.
fn list_slower(groups: &Vec<TierGroup>, kbps: i32) -> (r: Vec<TrackQualityInfo>)
    ensures
        r.deep_view() == tracks_slower(groups.deep_view(), kbps),
{
    let ghost s = groups.deep_view();
    let mut out: Vec<TrackQualityInfo> = nothing();
    proof {
        assert(s.take(0) =~= Seq::<TierGroupModel>::empty());
    }
    let mut i: usize = 0;
    while i < groups.len()
        invariant
            i <= groups.len(),
            s == groups.deep_view(),
            out.deep_view() == tracks_slower(s.take(i as int), kbps),
        decreases groups.len() - i,
    {
        proof {
            assert(s.take(i as int + 1).drop_last() =~= s.take(i as int));
            assert(s.take(i as int + 1).last() == s[i as int]);
        }
        put_all(&mut out, choose_slower(&groups[i].tracks, kbps));
        i = i + 1;
    }
    proof {
        assert(s.take(s.len() as int) =~= s);
    }
    out
}

fn copy_infos(v: &Vec<TrackQualityInfo>) -> (r: Vec<TrackQualityInfo>)
    ensures
        r.deep_view() == v.deep_view(),
{
    let mut out: Vec<TrackQualityInfo> = nothing();
    let mut i: usize = 0;
    while i < v.len()
        invariant
            i <= v.len(),
            out.len() == i,
            forall|k: int| 0 <= k < i ==> (#[trigger] out[k]).deep_view() == v.deep_view()[k],
        decreases v.len() - i,
    {
        out.push(v[i].clone());
        i = i + 1;
    }
    proof {
        assert(out.deep_view() =~= v.deep_view());
    }
    out
}

fn list_type_options(analysis: &QualityAnalysis) -> (r: Vec<QualityResolutionOption>)
    ensures
        r.deep_view() == analysis.deep_view().type_options(),
{
    let mut out: Vec<QualityResolutionOption> = nothing();
    proof {
        assert(analysis.deep_view().file_types.len() == analysis.file_types.len());
    }
    if analysis.file_types.len() <= 1 {
        return out;
    }
    let ghost gs = analysis.tracks_by_type.deep_view();
    let mut types: Vec<TypeOption> = nothing();
    let mut i: usize = 0;
    while i < analysis.tracks_by_type.len()
        invariant
            i <= analysis.tracks_by_type.len(),
            gs == analysis.tracks_by_type.deep_view(),
            types.len() == i,
            forall|k: int| 0 <= k < i ==> (#[trigger] types[k]).deep_view() == type_option()(gs[k]),
        decreases analysis.tracks_by_type.len() - i,
    {
        let group: &TypeGroup = &analysis.tracks_by_type[i];
        let option: TypeOption = TypeOption {
            file_type: group.file_type.clone(),
            track_count: group.tracks.len(),
            tier: QualityTier::from_file_type(group.file_type.as_str()),
        };
        proof {
            assert(group.deep_view().tracks.len() == group.tracks.len());
            assert(option.deep_view() == type_option()(gs[i as int]));
        }
        types.push(option);
        i = i + 1;
    }
    proof {
        assert(types.deep_view() =~= gs.map_values(type_option()));
    }
    let types: Vec<TypeOption> = sorted(types);
    let ghost s = types.deep_view();
    proof {
        assert(s == in_order(gs.map_values(type_option()), worse()));
    }
    let n: usize = if types.len() == 0 {
        0
    } else {
        types.len() - 1
    };
    let mut i: usize = 0;
    while i < n
        invariant
            i <= n <= types.len(),
            s == types.deep_view(),
            out.len() == i,
            forall|k: int| 0 <= k < i ==> (#[trigger] out[k]).deep_view() == stash_type()(s[k]),
        decreases n - i,
    {
        let option: QualityResolutionOption = QualityResolutionOption::StashFileType {
            file_type: types[i].file_type.clone(),
            track_count: types[i].track_count,
            tier: types[i].tier,
        };
        proof {
            assert(option.deep_view() == stash_type()(s[i as int]));
        }
        out.push(option);
        i = i + 1;
    }
    proof {
        assert(out.deep_view() =~= but_last(s).map_values(stash_type()));
    }
    out
}

/// What can be stashed.
pub fn get_resolution_options(analysis: &QualityAnalysis) -> (r: Vec<QualityResolutionOption>)
    ensures
        r.deep_view() == analysis.deep_view().options(),
{
    let mut options: Vec<QualityResolutionOption> = nothing();
    if let (Some(max), Some(min)) = (analysis.max_bitrate, analysis.min_bitrate) {
        if max > min && max >= 0 && 10 * (min as i64) < 9 * (max as i64) {
            let lower: Vec<TrackQualityInfo> = list_slower(
                &analysis.tracks_by_bitrate_tier,
                max,
            );
            proof {
                assert(lower.deep_view().len() == lower.len());
            }
            if lower.len() > 0 {
                put(
                    &mut options,
                    QualityResolutionOption::StashLowerBitrates {
                        track_count: lower.len(),
                        threshold: max,
                    },
                );
            }
        }
    }
    proof {
        assert(options.deep_view() =~= analysis.deep_view().bitrate_options());
    }
    put_all(&mut options, list_type_options(analysis));
    options
}

// ---------------------------------------------------------------------------
// Changes
// ---------------------------------------------------------------------------

/// What a pending change does.
#[derive(Debug, Clone, Copy, PartialEq, Eq, Structural)]
pub enum ChangeType {
    /// Moves the file to the stash
    Delete,
}

/// How far a pending change is.
#[derive(Debug, Clone, Copy, PartialEq, Eq, Structural)]
pub enum ChangeStatus {
    /// Not carried out
    Pending,
}

/// A change that is not carried out yet.
#[derive(Debug)]
pub struct PendingChange {
    pub id: Option<i64>,
    pub session_id: String,
    pub change_type: ChangeType,
    pub source_path: String,
    pub target_path: Option<String>,
    pub metadata_changes: Option<String>,
    pub created_at: Option<i64>,
    pub status: ChangeStatus,
}

/// The model of a [`PendingChange`].
pub struct PendingChangeModel {
    pub id: Option<i64>,
    pub session_id: Seq<char>,
    pub change_type: ChangeType,
    pub source_path: Seq<char>,
    pub target_path: Option<Seq<char>>,
    pub metadata_changes: Option<Seq<char>>,
    pub created_at: Option<i64>,
    pub status: ChangeStatus,
}

impl DeepView for PendingChange {
    type V = PendingChangeModel;

    open spec fn deep_view(&self) -> PendingChangeModel {
        PendingChangeModel {
            id: self.id,
            session_id: self.session_id@,
            change_type: self.change_type,
            source_path: self.source_path@,
            target_path: self.target_path.deep_view(),
            metadata_changes: self.metadata_changes.deep_view(),
            created_at: self.created_at,
            status: self.status,
        }
    }
}

/// The tracks that an option stashes.
pub open spec fn stashed(option: OptionModel, a: AnalysisModel) -> Seq<QualityInfoModel> {
    match option {
        OptionModel::StashLowerBitrates { threshold, .. } => tracks_slower(
            a.tracks_by_bitrate_tier,
            threshold,
        ),
        OptionModel::StashFileType { file_type, .. } => tracks_typed(a.tracks_by_type, file_type),
        OptionModel::StashBelowTier { tier, .. } => tracks_below(a.tracks_by_bitrate_tier, tier),
    }
}

/// The condition of being the group of a file type.
pub open spec fn group_of(file_type: Seq<char>) -> spec_fn(TypeGroupModel) -> bool {
    |g: TypeGroupModel| g.file_type == file_type
}

/// The tracks of the group of a file type.
pub open spec fn tracks_typed(groups: Seq<TypeGroupModel>, file_type: Seq<char>) -> Seq<
    QualityInfoModel,
> {
    let i = crate::lists::first_place(groups, 0, group_of(file_type));
    if i < groups.len() {
        groups[i as int].tracks
    } else {
        Seq::empty()
    }
}

/// What is noted on a change, as entries of an object.
pub open spec fn stash_notes(option: OptionModel, t: QualityInfoModel) -> Seq<
    (Seq<char>, ScalarModel),
> {
    crate::screen::list4(
        ("reason"@, ScalarModel::Text("quality_resolution"@)),
        ("option"@, ScalarModel::Text(option.short_words())),
        (
            "original_bitrate"@,
            match t.bitrate_kbps {
                Some(kbps) => ScalarModel::Whole(kbps as i64),
                None => ScalarModel::Null,
            },
        ),
        ("original_type"@, ScalarModel::Text(t.file_type)),
    )
}

/// The change that stashes a track: to a directory in the stash, under its name.
pub open spec fn stash_change(
    option: OptionModel,
    t: QualityInfoModel,
    session_id: Seq<char>,
    stash_root: Seq<char>,
    stash_subdir: Seq<char>,
) -> PendingChangeModel {
    PendingChangeModel {
        id: None,
        session_id,
        change_type: ChangeType::Delete,
        source_path: t.path,
        target_path: Some(
            paths::under(
                paths::under(stash_root, stash_subdir),
                match paths::name_in(t.path) {
                    Some(name) => name,
                    None => "unknown"@,
                },
            ),
        ),
        metadata_changes: Some(object_text(stash_notes(option, t))),
        created_at: None,
        status: ChangeStatus::Pending,
    }
}

fn list_typed(groups: &Vec<TypeGroup>, file_type: &str) -> (r: Vec<TrackQualityInfo>)
    ensures
        r.deep_view() == tracks_typed(groups.deep_view(), file_type@),
{
    let ghost s = groups.deep_view();
    let mut i: usize = 0;
    while i < groups.len() && !text::same(groups[i].file_type.as_str(), file_type)
        invariant
            i <= groups.len(),
            s == groups.deep_view(),
            crate::lists::first_place(s, 0, group_of(file_type@)) == crate::lists::first_place(
                s,
                i as nat,
                group_of(file_type@),
            ),
        decreases groups.len() - i,
    {
        i = i + 1;
    }
    if i < groups.len() {
        copy_infos(&groups[i].tracks)
    } else {
        nothing()
    }
}

/// The tracks that an option stashes.
pub fn tracks_to_stash(option: &QualityResolutionOption, analysis: &QualityAnalysis) -> (r: Vec<
    TrackQualityInfo,
>)
    ensures
        r.deep_view() == stashed(option.deep_view(), analysis.deep_view()),
{
    match option {
        QualityResolutionOption::StashLowerBitrates { threshold, .. } => list_slower(
            &analysis.tracks_by_bitrate_tier,
            *threshold,
        ),
        QualityResolutionOption::StashFileType { file_type, .. } => list_typed(
            &analysis.tracks_by_type,
            file_type.as_str(),
        ),
        QualityResolutionOption::StashBelowTier { tier, .. } => list_below(
            &analysis.tracks_by_bitrate_tier,
            *tier,
        ),
    }
}

/// What is noted on a change.
fn note_stash(option: &QualityResolutionOption, t: &TrackQualityInfo) -> (r: Vec<(String, Scalar)>)
    ensures
        r.deep_view() == stash_notes(option.deep_view(), t.deep_view()),
{
    let mut out: Vec<(String, Scalar)> = nothing();
    put(&mut out, ("reason".to_owned(), Scalar::Text("quality_resolution".to_owned())));
    put(&mut out, ("option".to_owned(), Scalar::Text(option.short_label())));
    put(
        &mut out,
        (
            "original_bitrate".to_owned(),
            match t.bitrate_kbps {
                Some(kbps) => Scalar::Whole(kbps as i64),
                None => Scalar::Null,
            },
        ),
    );
    put(&mut out, ("original_type".to_owned(), Scalar::Text(t.file_type.clone())));
    out
}

/// The changes that an option leads to, one for each track.
pub fn generate_stash_changes(
    option: &QualityResolutionOption,
    analysis: &QualityAnalysis,
    session_id: &str,
    stash_root: &str,
    stash_subdir: &str,
) -> (r: Vec<PendingChange>)
    ensures
        r.deep_view() == stashed(option.deep_view(), analysis.deep_view()).map_values(
            |t: QualityInfoModel|
                stash_change(option.deep_view(), t, session_id@, stash_root@, stash_subdir@),
        ),
        r.len() == stashed(option.deep_view(), analysis.deep_view()).len(),
        forall|i: int|
            0 <= i < r.len() ==> (#[trigger] r.deep_view()[i]).source_path == stashed(
                option.deep_view(),
                analysis.deep_view(),
            )[i].path,
{
    let tracks: Vec<TrackQualityInfo> = tracks_to_stash(option, analysis);
    let ghost s = tracks.deep_view();
    let mut out: Vec<PendingChange> = nothing();
    let mut i: usize = 0;
    while i < tracks.len()
        invariant
            i <= tracks.len(),
            s == tracks.deep_view(),
            out.len() == i,
            forall|k: int|
                0 <= k < i ==> (#[trigger] out[k]).deep_view() == stash_change(
                    option.deep_view(),
                    s[k],
                    session_id@,
                    stash_root@,
                    stash_subdir@,
                ),
        decreases tracks.len() - i,
    {
        let track: &TrackQualityInfo = &tracks[i];
        let name: String = paths::name_or(track.path.as_str(), "unknown");
        let folder: String = paths::resolve(stash_root, stash_subdir);
        let change: PendingChange = PendingChange {
            id: None,
            session_id: session_id.to_owned(),
            change_type: ChangeType::Delete,
            source_path: track.path.clone(),
            target_path: Some(paths::resolve(folder.as_str(), name.as_str())),
            metadata_changes: Some(write_object(note_stash(option, track))),
            created_at: None,
            status: ChangeStatus::Pending,
        };
        proof {
            assert(change.deep_view() == stash_change(
                option.deep_view(),
                s[i as int],
                session_id@,
                stash_root@,
                stash_subdir@,
            ));
        }
        out.push(change);
        i = i + 1;
    }
    proof {
        assert(out.deep_view() =~= s.map_values(
            |t: QualityInfoModel|
                stash_change(option.deep_view(), t, session_id@, stash_root@, stash_subdir@),
        ));
    }
    out
}

// ---------------------------------------------------------------------------
// State
// ---------------------------------------------------------------------------

/// The options, and which of them are switched on.
#[derive(Debug)]
pub struct QualityResolutionState {
    /// The options
    pub options: Vec<QualityResolutionOption>,
    /// Those that are switched on
    pub selected: HashSet<usize>,
    /// The option in hand
    pub cursor: usize,
}

/// The model of a [`QualityResolutionState`].
pub struct ResolutionModel {
    pub options: Seq<OptionModel>,
    pub selected: Set<usize>,
    pub cursor: usize,
}

impl View for QualityResolutionState {
    type V = ResolutionModel;

    open spec fn view(&self) -> ResolutionModel {
        ResolutionModel {
            options: self.options.deep_view(),
            selected: self.selected@,
            cursor: self.cursor,
        }
    }
}

/// The selected ones of the first `n` options, in order.
pub open spec fn options_at(options: Seq<OptionModel>, selected: Set<usize>, n: nat) -> Seq<
    OptionModel,
>
    decreases n,
{
    if n == 0 {
        Seq::empty()
    } else {
        let before = options_at(options, selected, (n - 1) as nat);
        if selected.contains((n - 1) as usize) {
            before.push(options[n - 1])
        } else {
            before
        }
    }
}

impl ResolutionModel {
    /// The option in hand switched over.
    pub open spec fn toggled_here(self) -> Self {
        if self.cursor < self.options.len() {
            ResolutionModel { selected: toggled(self.selected, self.cursor), ..self }
        } else {
            self
        }
    }

    /// The option before.
    pub open spec fn up(self) -> Self {
        if self.cursor > 0 {
            ResolutionModel { cursor: (self.cursor - 1) as usize, ..self }
        } else {
            self
        }
    }

    /// The option after.
    pub open spec fn down(self) -> Self {
        if self.cursor + 1 < self.options.len() {
            ResolutionModel { cursor: (self.cursor + 1) as usize, ..self }
        } else {
            self
        }
    }
}

impl QualityResolutionState {
    /// The options of an analysis, none switched on.
    pub fn new(analysis: &QualityAnalysis) -> (r: Self)
        ensures
            r@ == (ResolutionModel {
                options: analysis.deep_view().options(),
                selected: Set::empty(),
                cursor: 0,
            }),
    {
        let options: Vec<QualityResolutionOption> = get_resolution_options(analysis);
        QualityResolutionState { options, selected: HashSet::new(), cursor: 0 }
    }

    /// Whether there are options.
    pub fn has_options(&self) -> (r: bool)
        ensures
            r == (self@.options.len() > 0),
    {
        self.options.len() > 0
    }

    /// Switches the option in hand over.
    pub fn toggle_current(&mut self)
        ensures
            final(self)@ == old(self)@.toggled_here(),
    {
        if self.cursor < self.options.len() {
            toggle(&mut self.selected, self.cursor);
        }
    }

    /// Takes the option before.
    pub fn move_up(&mut self)
        ensures
            final(self)@ == old(self)@.up(),
    {
        if self.cursor > 0 {
            self.cursor = self.cursor - 1;
        }
    }

    /// Takes the option after.
    pub fn move_down(&mut self)
        ensures
            final(self)@ == old(self)@.down(),
    {
        if self.options.len() > 0 && self.cursor < self.options.len() - 1 {
            self.cursor = self.cursor + 1;
        }
    }

    /// The options that are switched on, in order.
    pub fn get_selected_options(&self) -> (r: Vec<&QualityResolutionOption>)
        ensures
            r.deep_view() == options_at(self@.options, self@.selected, self@.options.len()),
    {
        let mut out: Vec<&QualityResolutionOption> = nothing();
        let mut i: usize = 0;
        while i < self.options.len()
            invariant
                i <= self.options.len(),
                out.deep_view() == options_at(self@.options, self@.selected, i as nat),
            decreases self.options.len() - i,
        {
            if self.selected.contains(&i) {
                put(&mut out, &self.options[i]);
            }
            i = i + 1;
        }
        out
    }

    /// Whether an option is switched on.
    pub fn is_selected(&self, idx: usize) -> (r: bool)
        ensures
            r == self@.selected.contains(idx),
    {
        self.selected.contains(&idx)
    }
}

// ---------------------------------------------------------------------------
// Laws
// ---------------------------------------------------------------------------

proof fn lemma_falling()
    ensures
        crate::ordering::ranks(falling()),
{
    assert forall|a: i32| !#[trigger] falling()(a, a) by {}
    assert forall|a: i32, b: i32, c: i32| #[trigger]
        falling()(a, b) && #[trigger] falling()(b, c) implies falling()(a, c) by {}
    assert forall|a: i32, b: i32, c: i32|
        !#[trigger] falling()(a, b) && !#[trigger] falling()(b, c) implies !falling()(a, c) by {}
}

/// No bitrate lies above the highest or below the lowest, and the bitrates are
/// those of the tracks.
pub proof fn law_bitrates_between_min_and_max(tracks: Seq<TrackModel>, i: int)
    requires
        0 <= i < tracks.len(),
        tracks[i].bitrate_kbps is Some,
    ensures
        analysis(tracks).max_bitrate matches Some(max) && tracks[i].bitrate_kbps->0 <= max,
        analysis(tracks).min_bitrate matches Some(min) && min <= tracks[i].bitrate_kbps->0,
        analysis(tracks).bitrates.contains(tracks[i].bitrate_kbps->0),
{
    broadcast use vstd::seq_lib::group_to_multiset_ensures;

    let infos = tracks.map_values(judged());
    let rates = picked(infos, has_bitrate(), bitrate());
    let one = distinct(rates);
    let all = in_order(one, falling());
    let kbps = tracks[i].bitrate_kbps->0;
    assert(infos[i].bitrate_kbps == Some(kbps));
    crate::lists::law_chosen(infos, has_bitrate());
    let having = chosen(infos, has_bitrate());
    assert(has_bitrate()(infos[i]));
    assert(infos.contains(infos[i]));
    assert(having.contains(infos[i]));
    let k = choose|k: int| 0 <= k < having.len() && having[k] == infos[i];
    assert(rates[k] == kbps);
    assert(rates.contains(kbps));
    crate::lists::law_distinct(rates);
    assert(one.contains(kbps));
    crate::ordering::law_in_order(one, falling());
    lemma_falling();
    assert(one.to_multiset().count(kbps) > 0);
    assert(all.to_multiset().count(kbps) > 0);
    assert(all.contains(kbps));
    let j = choose|j: int| 0 <= j < all.len() && all[j] == kbps;
    if j > 0 {
        assert(!falling()(all[j], all[0]));
    }
    if j < all.len() - 1 {
        assert(!falling()(all[all.len() - 1], all[j]));
    }
}

proof fn lemma_tracks_slower(groups: Seq<TierGroupModel>, kbps: i32, t: QualityInfoModel)
    ensures
        tracks_slower(groups, kbps).contains(t) <==> slower(kbps)(t) && exists|g: int|
            0 <= g < groups.len() && (#[trigger] groups[g]).tracks.contains(t),
    decreases groups.len(),
{
    if groups.len() > 0 {
        let init = groups.drop_last();
        let before = tracks_slower(init, kbps);
        let last = groups[groups.len() - 1];
        let more = chosen(last.tracks, slower(kbps));
        let all = tracks_slower(groups, kbps);
        lemma_tracks_slower(init, kbps, t);
        crate::lists::law_chosen(last.tracks, slower(kbps));
        assert(all == before + more);
        assert(all.contains(t) <==> before.contains(t) || more.contains(t)) by {
            if all.contains(t) {
                let i = choose|i: int| 0 <= i < all.len() && all[i] == t;
                if i < before.len() {
                    assert(before[i] == t);
                } else {
                    assert(more[i - before.len()] == t);
                }
            }
            if before.contains(t) {
                let i = choose|i: int| 0 <= i < before.len() && before[i] == t;
                assert(all[i] == t);
            }
            if more.contains(t) {
                let i = choose|i: int| 0 <= i < more.len() && more[i] == t;
                assert(all[before.len() + i] == t);
            }
        }
        if more.contains(t) {
            let i = choose|i: int| 0 <= i < more.len() && more[i] == t;
            assert(slower(kbps)(more[i]));
            assert(last.tracks.contains(more[i]));
            assert(groups[groups.len() - 1].tracks.contains(t));
        }
        if before.contains(t) {
            let g = choose|g: int|
                0 <= g < init.len() && (#[trigger] init[g]).tracks.contains(t);
            assert(groups[g].tracks.contains(t));
        }
        if slower(kbps)(t) && exists|g: int|
            0 <= g < groups.len() && (#[trigger] groups[g]).tracks.contains(t) {
            let g = choose|g: int|
                0 <= g < groups.len() && (#[trigger] groups[g]).tracks.contains(t);
            if g < init.len() {
                assert(init[g].tracks.contains(t));
            } else {
                let i = choose|i: int| 0 <= i < last.tracks.len() && last.tracks[i] == t;
                assert(slower(kbps)(last.tracks[i]));
                assert(more.contains(t));
            }
        }
    }
}

/// Stashing lower bitrates takes exactly the tracks with a lower bitrate.
pub proof fn law_lower_bitrates_are_stashed(tracks: Seq<TrackModel>, kbps: i32, t: QualityInfoModel)
    ensures
        tracks_slower(analysis(tracks).tracks_by_bitrate_tier, kbps).contains(t) <==> slower(kbps)(
            t,
        ) && tracks.map_values(judged()).contains(t),
{
    let infos = tracks.map_values(judged());
    let all = crate::screen::list5(
        tier_group(infos, BitrateTier::VeryLow),
        tier_group(infos, BitrateTier::Low),
        tier_group(infos, BitrateTier::Medium),
        tier_group(infos, BitrateTier::High),
        tier_group(infos, BitrateTier::VeryHigh),
    );
    let groups = tier_groups(infos);
    crate::lists::law_chosen(all, has_tracks());
    lemma_tracks_slower(groups, kbps, t);
    if exists|g: int| 0 <= g < groups.len() && (#[trigger] groups[g]).tracks.contains(t) {
        let g = choose|g: int| 0 <= g < groups.len() && (#[trigger] groups[g]).tracks.contains(t);
        assert(all.contains(groups[g]));
        let j = choose|j: int| 0 <= j < all.len() && all[j] == groups[g];
        let tier = groups[g].tier;
        assert(groups[g] == tier_group(infos, tier));
        crate::lists::law_chosen(infos, in_tier(tier));
        let i = choose|i: int| 0 <= i < groups[g].tracks.len() && groups[g].tracks[i] == t;
        assert(infos.contains(groups[g].tracks[i]));
    }
    if slower(kbps)(t) && infos.contains(t) {
        let tier = BitrateTier::from_bitrate(t.bitrate_kbps->0);
        crate::lists::law_chosen(infos, in_tier(tier));
        let i = choose|i: int| 0 <= i < infos.len() && infos[i] == t;
        assert(in_tier(tier)(infos[i]));
        let group = tier_group(infos, tier);
        assert(group.tracks.contains(t));
        assert(has_tracks()(group));
        assert(all[tier.rank() as int] == group);
        assert(all.contains(group));
        assert(groups.contains(group));
        let g = choose|g: int| 0 <= g < groups.len() && groups[g] == group;
        assert(groups[g].tracks.contains(t));
    }
}

/// What is stashed below a tier is of a lower tier.
pub proof fn law_only_lower_tiers_are_stashed(
    tracks: Seq<TrackModel>,
    tier: BitrateTier,
    i: int,
)
    requires
        0 <= i < tracks_below(analysis(tracks).tracks_by_bitrate_tier, tier).len(),
    ensures
        tracks_below(analysis(tracks).tracks_by_bitrate_tier, tier)[i].bitrate_kbps matches Some(
            kbps,
        ) && BitrateTier::from_bitrate(kbps).rank() < tier.rank(),
{
    let infos = tracks.map_values(judged());
    let all = crate::screen::list5(
        tier_group(infos, BitrateTier::VeryLow),
        tier_group(infos, BitrateTier::Low),
        tier_group(infos, BitrateTier::Medium),
        tier_group(infos, BitrateTier::High),
        tier_group(infos, BitrateTier::VeryHigh),
    );
    let groups = tier_groups(infos);
    crate::lists::law_chosen(all, has_tracks());
    assert forall|k: int| 0 <= k < groups.len() implies (#[trigger] groups[k]) == tier_group(
        infos,
        groups[k].tier,
    ) by {
        assert(all.contains(groups[k]));
        let j = choose|j: int| 0 <= j < all.len() && all[j] == groups[k];
    }
    lemma_tracks_below(infos, groups, tier, i);
}

proof fn lemma_tracks_below(
    infos: Seq<QualityInfoModel>,
    groups: Seq<TierGroupModel>,
    tier: BitrateTier,
    i: int,
)
    requires
        forall|k: int|
            0 <= k < groups.len() ==> (#[trigger] groups[k]) == tier_group(infos, groups[k].tier),
        0 <= i < tracks_below(groups, tier).len(),
    ensures
        tracks_below(groups, tier)[i].bitrate_kbps matches Some(kbps)
            && BitrateTier::from_bitrate(kbps).rank() < tier.rank(),
    decreases groups.len(),
{
    if groups.len() > 0 {
        let init = groups.drop_last();
        let before = tracks_below(init, tier);
        assert forall|k: int| 0 <= k < init.len() implies (#[trigger] init[k]) == tier_group(
            infos,
            init[k].tier,
        ) by {
            assert(init[k] == groups[k]);
        }
        if i < before.len() {
            lemma_tracks_below(infos, init, tier, i);
        } else {
            let last = groups[groups.len() - 1];
            crate::lists::law_chosen(infos, in_tier(last.tier));
            assert(in_tier(last.tier)(last.tracks[i - before.len()]));
        }
    }
}

/// The best of the file types, and of several the last.
pub open spec fn best_type(a: AnalysisModel) -> TypeOptionModel {
    in_order(a.tracks_by_type.map_values(type_option()), worse()).last()
}

/// The best file type is never offered to be stashed: every type but one is
/// offered, and that one is no worse than any that is.
pub proof fn law_best_type_is_kept(tracks: Seq<TrackModel>)
    requires
        analysis(tracks).file_types.len() > 1,
    ensures
        analysis(tracks).type_options().len() == analysis(tracks).file_types.len() - 1,
        analysis(tracks).file_types.contains(best_type(analysis(tracks)).file_type),
        best_type(analysis(tracks)).tier == QualityTier::of(
            lowercase(best_type(analysis(tracks)).file_type),
        ),
        forall|i: int|
            0 <= i < analysis(tracks).type_options().len() ==> (
            #[trigger] analysis(tracks).type_options()[i] matches OptionModel::StashFileType {
                file_type,
                tier,
                ..
            } && analysis(tracks).file_types.contains(file_type) && tier == QualityTier::of(
                lowercase(file_type),
            ) && file_type != best_type(analysis(tracks)).file_type && tier.rank() <= best_type(
                analysis(tracks),
            ).tier.rank()),
{
    let a = analysis(tracks);
    let infos = tracks.map_values(judged());
    let o = a.tracks_by_type.map_values(type_option());
    let all = in_order(o, worse());
    crate::ordering::law_in_order(o, worse());
    crate::lists::law_distinct(infos.map_values(small_type()));
    assert forall|i: int, j: int| 0 <= i < o.len() && 0 <= j < o.len() && i != j implies o[i]
        != o[j] by {
        assert(o[i].file_type == a.file_types[i]);
        assert(o[j].file_type == a.file_types[j]);
    }
    o.lemma_multiset_has_no_duplicates();
    all.lemma_multiset_has_no_duplicates_conv();
    assert forall|i: int| 0 <= i < all.len() implies a.file_types.contains(
        (#[trigger] all[i]).file_type,
    ) && all[i].tier == QualityTier::of(lowercase(all[i].file_type)) by {
        assert(o.contains(all[i]));
        let k = choose|k: int| 0 <= k < o.len() && o[k] == all[i];
        assert(o[k].file_type == a.file_types[k]);
    }
    let last = all.len() - 1;
    let best = best_type(a);
    assert(best == all[last]);
    let options = a.type_options();
    assert forall|i: int| 0 <= i < options.len() implies (
    #[trigger] options[i] matches OptionModel::StashFileType { file_type, tier, .. }
        && a.file_types.contains(file_type) && tier == QualityTier::of(lowercase(file_type))
        && file_type != best.file_type && tier.rank() <= best.tier.rank()) by {
        assert(options[i] == stash_type()(all[i]));
        assert(!worse()(all[last], all[i]));
        assert(all[i] != all[last]);
        assert(o.contains(all[i]) && o.contains(all[last]));
        let k = choose|k: int| 0 <= k < o.len() && o[k] == all[i];
        let l = choose|l: int| 0 <= l < o.len() && o[l] == all[last];
        assert(o[k].file_type == a.file_types[k]);
        assert(o[l].file_type == a.file_types[l]);
        assert(a.file_types[k] != a.file_types[l]);
    }
}

/// Switching the option in hand over twice changes nothing.
pub proof fn law_toggle_current_twice(m: ResolutionModel)
    ensures
        m.toggled_here().toggled_here() == m,
{
    assert(m.toggled_here().toggled_here().selected =~= m.selected);
}

/// The option in hand stays one of the options.
pub proof fn law_option_cursor_in_bounds(m: ResolutionModel)
    requires
        m.cursor < m.options.len() <= usize::MAX,
    ensures
        m.up().cursor < m.options.len(),
        m.down().cursor < m.options.len(),
{
}

} // verus!
