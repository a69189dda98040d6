//! What resolving qualities promises: which tracks are stashed, and where to.

use vstd::prelude::*;

use crate::corpus::TrackModel;
use crate::json::ScalarModel;
use crate::lists::{chosen, law_chosen, law_distinct, law_first_place, law_picked, picked, tally};
use crate::paths;
use crate::shared::quality_resolution::{analysis, bitrate, falling, group_of, has_bitrate, has_tracks, in_tier, is_type, judged, law_best_type_is_kept, law_lower_bitrates_are_stashed, options_at, slower, small_type, stash_change, stash_notes, stashed, tier_group, tier_groups, tracks_below, tracks_slower, type_option, worse, BitrateTier, ChangeStatus, ChangeType, OptionModel, QualityInfoModel, QualityTier, ResolutionModel, TierGroupModel};
use crate::text::{decimal, lowercase, signed_decimal, uppercase};

verus! {

/// Whether an entry tells of a track: its number, its path, its type, its rates,
/// and the tier of its type.
pub open spec fn tells_of(info: QualityInfoModel, t: TrackModel) -> bool {
    &&& info.track_id == (if t.id is Some {
        t.id->0
    } else {
        0
    })
    &&& info.path == t.path
    &&& info.file_type == t.file_type
    &&& info.bitrate_kbps == t.bitrate_kbps
    &&& info.sample_rate == t.sample_rate
    &&& info.quality_tier == tier_of_type(lowercase(t.file_type))
}

/// The tier of a file type in small letters: the lossless ones, the better lossy
/// ones, and everything else.
pub open spec fn tier_of_type(t: Seq<char>) -> QualityTier {
    if t == "flac"@ || t == "wav"@ || t == "ape"@ || t == "wv"@ || t == "alac"@ || t == "aiff"@ {
        QualityTier::Lossless
    } else if t == "ogg"@ || t == "opus"@ || t == "m4a"@ || t == "aac"@ {
        QualityTier::HighQualityLossy
    } else {
        QualityTier::LegacyLossy
    }
}

/// The ends of the tiers of bitrates.
pub proof fn law_ends_of_tiers(kbps: i32)
    ensures
        BitrateTier::from_bitrate(kbps) == BitrateTier::VeryLow <==> kbps < 128,
        BitrateTier::from_bitrate(kbps) == BitrateTier::Low <==> 128 <= kbps < 192,
        BitrateTier::from_bitrate(kbps) == BitrateTier::Medium <==> 192 <= kbps < 256,
        BitrateTier::from_bitrate(kbps) == BitrateTier::High <==> 256 <= kbps <= 320,
        BitrateTier::from_bitrate(kbps) == BitrateTier::VeryHigh <==> kbps > 320,
        BitrateTier::VeryLow.rank() < BitrateTier::Low.rank() < BitrateTier::Medium.rank()
            < BitrateTier::High.rank() < BitrateTier::VeryHigh.rank(),
        QualityTier::LegacyLossy.rank() < QualityTier::HighQualityLossy.rank()
            < QualityTier::Lossless.rank(),
{
}

proof fn lemma_judged(tracks: Seq<TrackModel>, info: QualityInfoModel)
    ensures
        tracks.map_values(judged()).contains(info) <==> exists|i: int|
            0 <= i < tracks.len() && tells_of(info, #[trigger] tracks[i]),
{
    let infos = tracks.map_values(judged());
    if infos.contains(info) {
        let i = choose|i: int| 0 <= i < infos.len() && infos[i] == info;
        assert(tells_of(info, tracks[i]));
    }
    if exists|i: int| 0 <= i < tracks.len() && tells_of(info, #[trigger] tracks[i]) {
        let i = choose|i: int| 0 <= i < tracks.len() && tells_of(info, #[trigger] tracks[i]);
        assert(infos[i] == info);
    }
}

/// Stashing a file type takes exactly the tracks of that type.
pub proof fn law_tracks_of_a_type_are_stashed(
    tracks: Seq<TrackModel>,
    option: OptionModel,
    info: QualityInfoModel,
)
    requires
        option is StashFileType,
    ensures
        stashed(option, analysis(tracks)).contains(info) <==> exists|i: int|
            0 <= i < tracks.len() && tells_of(info, #[trigger] tracks[i]) && lowercase(
                tracks[i].file_type,
            ) == option->file_type,
        stashed(option, analysis(tracks)).len() == tally(
            tracks,
            |t: TrackModel| lowercase(t.file_type) == option->file_type,
        ),
{
    let t = option->file_type;
    let infos = tracks.map_values(judged());
    let smalls = infos.map_values(small_type());
    let a = analysis(tracks);
    let groups = a.tracks_by_type;
    let i = crate::lists::first_place(groups, 0, group_of(t));
    law_first_place(groups, 0, group_of(t));
    law_distinct(smalls);
    law_chosen(infos, is_type(t));
    lemma_judged(tracks, info);
    let p = |x: TrackModel| lowercase(x.file_type) == t;
    lemma_tally_map(tracks, p, is_type(t));
    let r = stashed(option, a);
    if i < groups.len() {
        assert(group_of(t)(groups[i as int]));
        assert(r == chosen(infos, is_type(t)));
    } else {
        assert forall|k: int| 0 <= k < infos.len() implies !is_type(t)(#[trigger] infos[k]) by {
            if is_type(t)(infos[k]) {
                assert(smalls[k] == t);
                assert(smalls.contains(t));
                assert(a.file_types.contains(t));
                let j = choose|j: int| 0 <= j < a.file_types.len() && a.file_types[j] == t;
                assert(group_of(t)(groups[j]));
            }
        }
        assert(r =~= chosen(infos, is_type(t)));
    }
    if r.contains(info) {
        let k = choose|k: int| 0 <= k < r.len() && r[k] == info;
        assert(is_type(t)(r[k]) && infos.contains(r[k]));
    }
    if exists|i: int|
        0 <= i < tracks.len() && tells_of(info, #[trigger] tracks[i]) && lowercase(
            tracks[i].file_type,
        ) == t {
        let k = choose|i: int|
            0 <= i < tracks.len() && tells_of(info, #[trigger] tracks[i]) && lowercase(
                tracks[i].file_type,
            ) == t;
        assert(infos[k] == info);
        assert(is_type(t)(infos[k]));
    }
}

proof fn lemma_tally_map(
    tracks: Seq<TrackModel>,
    p: spec_fn(TrackModel) -> bool,
    q: spec_fn(QualityInfoModel) -> bool,
)
    requires
        forall|t: TrackModel| #[trigger] p(t) == q(judged()(t)),
    ensures
        tally(tracks, p) == tally(tracks.map_values(judged()), q),
    decreases tracks.len(),
{
    if tracks.len() > 0 {
        lemma_tally_map(tracks.drop_last(), p, q);
        assert(tracks.map_values(judged()).drop_last() =~= tracks.drop_last().map_values(judged()));
        assert(p(tracks.last()) == q(judged()(tracks.last())));
    }
}

/// Stashing lower bitrates takes exactly the tracks whose bitrate is lower than
/// the threshold; one whose bitrate is not known stays.
pub proof fn law_slower_tracks_are_stashed(
    tracks: Seq<TrackModel>,
    option: OptionModel,
    info: QualityInfoModel,
)
    requires
        option is StashLowerBitrates,
    ensures
        stashed(option, analysis(tracks)).contains(info) <==> exists|i: int|
            0 <= i < tracks.len() && tells_of(info, #[trigger] tracks[i]) && (
            tracks[i].bitrate_kbps matches Some(b) && b < option->threshold),
{
    law_lower_bitrates_are_stashed(tracks, option->threshold, info);
    lemma_judged(tracks, info);
}

/// Stashing below a tier takes exactly the tracks whose bitrate lies in a lower
/// tier.
pub proof fn law_tracks_of_lower_tiers_are_stashed(
    tracks: Seq<TrackModel>,
    option: OptionModel,
    info: QualityInfoModel,
)
    requires
        option is StashBelowTier,
    ensures
        stashed(option, analysis(tracks)).contains(info) <==> exists|i: int|
            0 <= i < tracks.len() && tells_of(info, #[trigger] tracks[i]) && (
            tracks[i].bitrate_kbps matches Some(b) && BitrateTier::from_bitrate(b).rank()
                < option->StashBelowTier_tier.rank()),
{
    let tier = option->StashBelowTier_tier;
    let infos = tracks.map_values(judged());
    let groups = tier_groups(infos);
    lemma_tier_groups(infos);
    lemma_below_contains(groups, tier, info);
    lemma_judged(tracks, info);
    if stashed(option, analysis(tracks)).contains(info) {
        let g = choose|g: int|
            0 <= g < groups.len() && (#[trigger] groups[g]).tier.rank() < tier.rank()
                && groups[g].tracks.contains(info);
        let t = groups[g].tier;
        law_chosen(infos, in_tier(t));
        let k = choose|k: int| 0 <= k < groups[g].tracks.len() && groups[g].tracks[k] == info;
        assert(in_tier(t)(groups[g].tracks[k]) && infos.contains(groups[g].tracks[k]));
    }
    if exists|i: int|
        0 <= i < tracks.len() && tells_of(info, #[trigger] tracks[i]) && (
        tracks[i].bitrate_kbps matches Some(b) && BitrateTier::from_bitrate(b).rank()
            < tier.rank()) {
        let i = choose|i: int|
            0 <= i < tracks.len() && tells_of(info, #[trigger] tracks[i]) && (
            tracks[i].bitrate_kbps matches Some(b) && BitrateTier::from_bitrate(b).rank()
                < tier.rank());
        assert(infos[i] == info);
        let t = BitrateTier::from_bitrate(info.bitrate_kbps->0);
        law_chosen(infos, in_tier(t));
        assert(in_tier(t)(infos[i]));
        let g = choose|g: int| 0 <= g < groups.len() && groups[g] == tier_group(infos, t);
        assert(groups[g].tracks.contains(info));
    }
}

proof fn lemma_tier_groups(infos: Seq<QualityInfoModel>)
    ensures
        forall|g: int|
            0 <= g < tier_groups(infos).len() ==> (#[trigger] tier_groups(infos)[g]) == tier_group(
                infos,
                tier_groups(infos)[g].tier,
            ),
        forall|t: BitrateTier|
            (#[trigger] tier_group(infos, t)).tracks.len() > 0 ==> tier_groups(infos).contains(
                tier_group(infos, t),
            ),
{
    let all = crate::screen::list5(
        tier_group(infos, BitrateTier::VeryLow),
        tier_group(infos, BitrateTier::Low),
        tier_group(infos, BitrateTier::Medium),
        tier_group(infos, BitrateTier::High),
        tier_group(infos, BitrateTier::VeryHigh),
    );
    let groups = tier_groups(infos);
    law_chosen(all, has_tracks());
    assert forall|g: int| 0 <= g < groups.len() implies (#[trigger] groups[g]) == tier_group(
        infos,
        groups[g].tier,
    ) by {
        assert(all.contains(groups[g]));
        let j = choose|j: int| 0 <= j < all.len() && all[j] == groups[g];
    }
    assert forall|t: BitrateTier| (#[trigger] tier_group(infos, t)).tracks.len() > 0 implies groups.contains(
        tier_group(infos, t),
    ) by {
        assert(all[t.rank() as int] == tier_group(infos, t));
        assert(has_tracks()(all[t.rank() as int]));
    }
}

proof fn lemma_below_contains(
    groups: Seq<TierGroupModel>,
    tier: BitrateTier,
    info: QualityInfoModel,
)
    ensures
        tracks_below(groups, tier).contains(info) <==> exists|g: int|
            0 <= g < groups.len() && (#[trigger] groups[g]).tier.rank() < tier.rank()
                && groups[g].tracks.contains(info),
    decreases groups.len(),
{
    if groups.len() > 0 {
        let init = groups.drop_last();
        let last = groups.last();
        lemma_below_contains(init, tier, info);
        let before = tracks_below(init, tier);
        let all = tracks_below(groups, tier);
        if all.contains(info) {
            let k = choose|k: int| 0 <= k < all.len() && all[k] == info;
            if k < before.len() {
                assert(before[k] == info);
                assert(before.contains(info));
                let g = choose|g: int|
                    0 <= g < init.len() && (#[trigger] init[g]).tier.rank() < tier.rank()
                        && init[g].tracks.contains(info);
                assert(groups[g] == init[g]);
            } else {
                assert(last.tracks[k - before.len()] == info);
                assert(groups[groups.len() - 1] == last);
                assert(last.tracks.contains(info));
            }
        }
        if exists|g: int|
            0 <= g < groups.len() && (#[trigger] groups[g]).tier.rank() < tier.rank()
                && groups[g].tracks.contains(info) {
            let g = choose|g: int|
                0 <= g < groups.len() && (#[trigger] groups[g]).tier.rank() < tier.rank()
                    && groups[g].tracks.contains(info);
            if g < init.len() {
                assert(init[g] == groups[g]);
                assert(before.contains(info));
                let k = choose|k: int| 0 <= k < before.len() && before[k] == info;
                assert(all[k] == info);
            } else {
                let k = choose|k: int| 0 <= k < last.tracks.len() && last.tracks[k] == info;
                assert(all[before.len() + k] == info);
            }
        }
    }
}

/// The types of an analysis are those of its tracks, each once and in small
/// letters; its highest and lowest bitrates are those of tracks, and no track
/// lies outside them. There are differences where there are several types, or the
/// lowest bitrate is under seven tenths of the highest.
pub proof fn law_analysis_is_of_the_tracks(tracks: Seq<TrackModel>)
    ensures
        forall|t: Seq<char>| #[trigger]
            analysis(tracks).file_types.contains(t) <==> exists|i: int|
                0 <= i < tracks.len() && lowercase((#[trigger] tracks[i]).file_type) == t,
        analysis(tracks).file_types.no_duplicates(),
        analysis(tracks).max_bitrate is Some <==> exists|i: int|
            0 <= i < tracks.len() && (#[trigger] tracks[i]).bitrate_kbps is Some,
        analysis(tracks).max_bitrate is Some <==> analysis(tracks).min_bitrate is Some,
        analysis(tracks).max_bitrate is Some ==> exists|i: int|
            0 <= i < tracks.len() && (#[trigger] tracks[i]).bitrate_kbps == analysis(
                tracks,
            ).max_bitrate,
        analysis(tracks).min_bitrate is Some ==> exists|i: int|
            0 <= i < tracks.len() && (#[trigger] tracks[i]).bitrate_kbps == analysis(
                tracks,
            ).min_bitrate,
        analysis(tracks).has_quality_differences <==> analysis(tracks).file_types.len() > 1 || (
        analysis(tracks).max_bitrate is Some && analysis(tracks).max_bitrate->0 > 0 && 10
            * analysis(tracks).min_bitrate->0 < 7 * analysis(tracks).max_bitrate->0),
{
    let infos = tracks.map_values(judged());
    let smalls = infos.map_values(small_type());
    let a = analysis(tracks);
    law_distinct(smalls);
    assert forall|t: Seq<char>| #[trigger] a.file_types.contains(t) <==> exists|i: int|
        0 <= i < tracks.len() && lowercase((#[trigger] tracks[i]).file_type) == t by {
        if smalls.contains(t) {
            let i = choose|i: int| 0 <= i < smalls.len() && smalls[i] == t;
            assert(lowercase(tracks[i].file_type) == t);
        }
        if exists|i: int| 0 <= i < tracks.len() && lowercase((#[trigger] tracks[i]).file_type) == t {
            let i = choose|i: int|
                0 <= i < tracks.len() && lowercase((#[trigger] tracks[i]).file_type) == t;
            assert(smalls[i] == t);
        }
    }
    let rates = picked(infos, has_bitrate(), bitrate());
    let once = crate::lists::distinct(rates);
    law_picked(infos, has_bitrate(), bitrate());
    law_distinct(rates);
    crate::ordering::law_in_order(once, falling());
    crate::ordering::law_in_order_contains(once, falling());
    assert forall|b: i32| a.bitrates.contains(b) implies exists|i: int|
        0 <= i < tracks.len() && (#[trigger] tracks[i]).bitrate_kbps == Some(b) by {
        assert(once.contains(b));
        assert(rates.contains(b));
        let k = choose|k: int|
            0 <= k < infos.len() && has_bitrate()(#[trigger] infos[k]) && bitrate()(infos[k]) == b;
        assert(tracks[k].bitrate_kbps == Some(b));
    }
    if a.bitrates.len() > 0 {
        assert(a.bitrates.contains(a.bitrates[0]));
        assert(a.bitrates.contains(a.bitrates.last()));
    }
    if exists|i: int| 0 <= i < tracks.len() && (#[trigger] tracks[i]).bitrate_kbps is Some {
        let i = choose|i: int| 0 <= i < tracks.len() && (#[trigger] tracks[i]).bitrate_kbps is Some;
        crate::shared::quality_resolution::law_bitrates_between_min_and_max(tracks, i);
    }
}

/// Stashing lower bitrates is offered just where the lowest bitrate is under nine
/// tenths of the highest, below the highest, and for as many tracks as it takes.
pub proof fn law_lower_bitrates_are_offered(tracks: Seq<TrackModel>)
    requires
        tracks.len() <= usize::MAX,
    ensures
        ({
            let a = analysis(tracks);
            let offered = a.max_bitrate is Some && a.max_bitrate->0 > a.min_bitrate->0
                && a.max_bitrate->0 >= 0 && 10 * a.min_bitrate->0 < 9 * a.max_bitrate->0;
            &&& offered ==> a.options().len() > 0 && a.options()[0] is StashLowerBitrates
                && a.options()[0]->threshold == a.max_bitrate->0 && stashed(
                a.options()[0],
                a,
            ).len() > 0 && a.options()[0]->StashLowerBitrates_track_count == stashed(
                a.options()[0],
                a,
            ).len() as usize
            &&& !offered ==> forall|i: int|
                0 <= i < a.options().len() ==> !(#[trigger] a.options()[i] is StashLowerBitrates)
        }),
{
    let a = analysis(tracks);
    let offered = a.max_bitrate is Some && a.max_bitrate->0 > a.min_bitrate->0
        && a.max_bitrate->0 >= 0 && 10 * a.min_bitrate->0 < 9 * a.max_bitrate->0;
    law_analysis_is_of_the_tracks(tracks);
    if offered {
        let i = choose|i: int|
            0 <= i < tracks.len() && (#[trigger] tracks[i]).bitrate_kbps == a.min_bitrate;
        let info = judged()(tracks[i]);
        assert(tells_of(info, tracks[i]));
        law_lower_bitrates_are_stashed(tracks, a.max_bitrate->0, info);
        assert(tracks.map_values(judged())[i] == info);
        assert(slower(a.max_bitrate->0)(info));
        let r = tracks_slower(a.tracks_by_bitrate_tier, a.max_bitrate->0);
        assert(r.contains(info));
        assert(r.len() > 0);
    } else {
        assert(a.bitrate_options() =~= Seq::<OptionModel>::empty());
        assert(a.options() =~= a.type_options());
        assert forall|i: int| 0 <= i < a.options().len() implies !(
        #[trigger] a.options()[i] is StashLowerBitrates) by {
            if a.file_types.len() > 1 {
                law_best_type_is_kept(tracks);
                assert(a.type_options()[i] is StashFileType);
            }
        }
    }
}

/// With several types all but one can be stashed, each with the number of its
/// tracks, the worse before the better; with one type none can.
pub proof fn law_worse_types_are_offered_first(tracks: Seq<TrackModel>)
    requires
        tracks.len() <= usize::MAX,
    ensures
        analysis(tracks).file_types.len() <= 1 ==> analysis(tracks).type_options().len() == 0,
        forall|i: int, j: int|
            0 <= i < j < analysis(tracks).type_options().len() ==> (
            #[trigger] analysis(tracks).type_options()[i])->StashFileType_tier.rank() <= (
            #[trigger] analysis(tracks).type_options()[j])->StashFileType_tier.rank(),
        forall|i: int|
            0 <= i < analysis(tracks).type_options().len() ==> (
            #[trigger] analysis(tracks).type_options()[i])->StashFileType_track_count == tally(
                tracks,
                |t: TrackModel|
                    lowercase(t.file_type) == analysis(tracks).type_options()[i]->file_type,
            ),
        forall|i: int|
            0 <= i < analysis(tracks).type_options().len() ==> (
            #[trigger] analysis(tracks).type_options()[i])->StashFileType_tier == tier_of_type(
                lowercase(analysis(tracks).type_options()[i]->file_type),
            ),
{
    let a = analysis(tracks);
    let infos = tracks.map_values(judged());
    if a.file_types.len() > 1 {
        let o = a.tracks_by_type.map_values(type_option());
        let all = crate::ordering::in_order(o, worse());
        crate::ordering::law_in_order(o, worse());
        assert forall|i: int, j: int| 0 <= i < j < a.type_options().len() implies (
        #[trigger] a.type_options()[i])->StashFileType_tier.rank() <= (
        #[trigger] a.type_options()[j])->StashFileType_tier.rank() by {
            assert(!worse()(all[j], all[i]));
        }
        assert forall|i: int| 0 <= i < a.type_options().len() implies (
        #[trigger] a.type_options()[i])->StashFileType_track_count == tally(
            tracks,
            |t: TrackModel| lowercase(t.file_type) == a.type_options()[i]->file_type,
        ) && a.type_options()[i]->StashFileType_tier == tier_of_type(
            lowercase(a.type_options()[i]->file_type),
        ) by {
            let t = a.type_options()[i]->file_type;
            assert(o.contains(all[i]));
            let k = choose|k: int| 0 <= k < o.len() && o[k] == all[i];
            assert(o[k].file_type == a.file_types[k]);
            lemma_tally_map(tracks, |x: TrackModel| lowercase(x.file_type) == t, is_type(t));
            law_chosen(infos, is_type(t));
        }
    }
}

/// A track that is stashed is moved under its own name into the folder of the
/// stash, and is marked as pending under the session.
pub proof fn law_stash_keeps_the_name(
    option: OptionModel,
    t: QualityInfoModel,
    session_id: Seq<char>,
    root: Seq<char>,
    subdir: Seq<char>,
    name: Seq<char>,
)
    requires
        paths::name_in(t.path) == Some(name),
    ensures
        stash_change(option, t, session_id, root, subdir).source_path == t.path,
        stash_change(option, t, session_id, root, subdir).session_id == session_id,
        stash_change(option, t, session_id, root, subdir).change_type == ChangeType::Delete,
        stash_change(option, t, session_id, root, subdir).status == ChangeStatus::Pending,
        stash_change(option, t, session_id, root, subdir).id is None,
        root.len() > 0 && root.last() != '/' && subdir.len() > 0 && subdir[0] != '/'
            && subdir.last() != '/' && name.len() > 0 && name[0] != '/' ==> stash_change(
            option,
            t,
            session_id,
            root,
            subdir,
        ).target_path == Some(root + "/"@ + subdir + "/"@ + name),
{
    reveal_strlit("/");
    if root.len() > 0 && root.last() != '/' && subdir.len() > 0 && subdir[0] != '/'
        && subdir.last() != '/' && name.len() > 0 && name[0] != '/' {
        let folder = paths::under(root, subdir);
        assert(folder.last() == subdir.last());
        assert(paths::under(folder, name) =~= root + "/"@ + subdir + "/"@ + name);
    }
}

/// The options that are carried out are the selected ones, all of them.
pub proof fn law_selected_options(m: ResolutionModel, n: nat)
    requires
        n <= m.options.len() <= usize::MAX,
    ensures
        forall|o: OptionModel| #[trigger]
            options_at(m.options, m.selected, n).contains(o) <==> exists|i: usize|
                #[trigger] m.selected.contains(i) && i < n && m.options[i as int] == o,
    decreases n,
{
    let after = options_at(m.options, m.selected, n);
    if n > 0 {
        let k = (n - 1) as nat;
        law_selected_options(m, k);
        let before = options_at(m.options, m.selected, k);
        assert forall|o: OptionModel| #[trigger] after.contains(o) <==> exists|i: usize|
            #[trigger] m.selected.contains(i) && i < n && m.options[i as int] == o by {
            if after.contains(o) {
                let j = choose|j: int| 0 <= j < after.len() && after[j] == o;
                if j < before.len() {
                    assert(before[j] == o);
                    assert(before.contains(o));
                    let i = choose|i: usize|
                        #[trigger] m.selected.contains(i) && i < k && m.options[i as int] == o;
                    assert(m.selected.contains(i));
                } else {
                    assert(m.selected.contains(k as usize));
                }
            }
            if exists|i: usize|
                #[trigger] m.selected.contains(i) && i < n && m.options[i as int] == o {
                let i = choose|i: usize|
                    #[trigger] m.selected.contains(i) && i < n && m.options[i as int] == o;
                if i < k {
                    assert(before.contains(o));
                    let j = choose|j: int| 0 <= j < before.len() && before[j] == o;
                    assert(after[j] == o);
                } else {
                    assert(after[after.len() - 1] == o);
                }
            }
        }
    }
}

/// The option in hand is switched over and no other; up and down go one by one
/// and stop at the ends.
pub proof fn law_options_are_walked_and_switched(m: ResolutionModel, i: usize)
    requires
        m.cursor < m.options.len() <= usize::MAX,
    ensures
        m.toggled_here().selected.contains(i) <==> (if i == m.cursor {
            !m.selected.contains(i)
        } else {
            m.selected.contains(i)
        }),
        m.up().cursor == (if m.cursor == 0 {
            0int
        } else {
            m.cursor - 1
        }),
        m.down().cursor == (if m.cursor + 1 == m.options.len() {
            m.cursor as int
        } else {
            m.cursor + 1
        }),
        m.up().selected == m.selected,
        m.down().selected == m.selected,
        m.toggled_here().cursor == m.cursor,
{
}

/// What is noted on a stashed track: why, by which option, and what it was.
pub proof fn law_stash_is_noted(option: OptionModel, t: QualityInfoModel)
    ensures
        ({
            let notes = stash_notes(option, t);
            &&& notes.len() == 4
            &&& notes[0] == ("reason"@, ScalarModel::Text("quality_resolution"@))
            &&& notes[1] == ("option"@, ScalarModel::Text(option.short_words()))
            &&& t.bitrate_kbps is Some ==> notes[2] == (
                "original_bitrate"@,
                ScalarModel::Whole(t.bitrate_kbps->0 as i64),
            )
            &&& t.bitrate_kbps is None ==> notes[2] == ("original_bitrate"@, ScalarModel::Null)
            &&& notes[3] == ("original_type"@, ScalarModel::Text(t.file_type))
        }),
{
}

/// An option says what it stashes and how many tracks that is; its button says the
/// first alone.
pub proof fn law_options_say_what_they_stash(option: OptionModel)
    ensures
        option is StashLowerBitrates ==> option.words() == "Stash lower bitrates (<"@
            + signed_decimal(option->threshold as int) + " kbps) ["@ + decimal(
            option->StashLowerBitrates_track_count as nat,
        ) + " tracks]"@ && option.short_words() == "Stash lower bitrates"@,
        option is StashFileType ==> option.words() == option.short_words() + " ["@ + decimal(
            option->StashFileType_track_count as nat,
        ) + " tracks]"@ && option.short_words() == "Stash "@ + uppercase(option->file_type),
        option is StashBelowTier ==> option.words() == option.short_words() + " ["@ + decimal(
            option->StashBelowTier_track_count as nat,
        ) + " tracks]"@ && option.short_words() == "Stash "@ + option->StashBelowTier_tier.words(),
{
}

} // verus!
