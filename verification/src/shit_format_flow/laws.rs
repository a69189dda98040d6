//! What converting files promises: which files are taken, what they become, and
//! on which keys.

use vstd::prelude::*;

use crate::corpus::{MutationModel, TranscodeTarget};
use crate::input::{KeyCode, KeyEvent};
use crate::lists::{chosen, first_place, law_chosen, law_first_place, law_picked, law_picked_joined, picked};
use crate::ordering::{in_order, law_in_order, law_in_order_contains};
use crate::paths;
use crate::shit_format_flow::preview::{FormatPreviewModel, ShitFormatPreviewAction};
use crate::shit_format_flow::types::{all_counted, bounded, commoner, counted, counts_type, format_entry, has_track, reckoned, to_opus, FormatDataModel, FormatEntryModel, FormatRowModel, BITRATE_STEP};
use crate::shit_format_modal::types::{counts_lossless, counts_lossy, entry_of, lossless_row, lossy_row, DataModel, EntryModel, InodeRowModel, SelectedButton};
use crate::text::lowercase;

verus! {

/// Whether an entry is made of a row whose track was found.
pub open spec fn found_in(f: FormatEntryModel, row: FormatRowModel) -> bool {
    &&& row.track is Some
    &&& f.corpus_path == row.corpus_path
    &&& f.file_type == row.file_type
    &&& f.track_id == (if row.track->0.id is Some {
        row.track->0.id->0
    } else {
        0
    })
}

/// The files that are loaded are those of the rows whose track was found, and the
/// bitrate to begin with is 128.
pub proof fn law_files_found_are_loaded(
    rows: Seq<FormatRowModel>,
    counts: Seq<(Seq<char>, i64)>,
    f: FormatEntryModel,
)
    ensures
        FormatDataModel::loaded(rows, counts).files.contains(f) <==> exists|i: int|
            0 <= i < rows.len() && found_in(f, #[trigger] rows[i]),
        FormatDataModel::loaded(rows, counts).opus_bitrate_kbps == 128,
        rows.len() == 0 ==> FormatDataModel::loaded(rows, counts).file_counts.len() == 0,
{
    law_picked(rows, has_track(), format_entry());
    let files = picked(rows, has_track(), format_entry());
    if files.contains(f) {
        let i = choose|i: int|
            0 <= i < rows.len() && has_track()(#[trigger] rows[i]) && format_entry()(rows[i]) == f;
        assert(found_in(f, rows[i]));
    }
    if exists|i: int| 0 <= i < rows.len() && found_in(f, #[trigger] rows[i]) {
        let i = choose|i: int| 0 <= i < rows.len() && found_in(f, #[trigger] rows[i]);
        assert(has_track()(rows[i]) && format_entry()(rows[i]) == f);
    }
}

/// Each file becomes Opus of the chosen bitrate, one mutation a file and in turn.
pub proof fn law_each_file_becomes_opus(
    files: Seq<FormatEntryModel>,
    root: Seq<char>,
    kbps: u32,
    i: int,
)
    requires
        0 <= i < files.len(),
    ensures
        files.map_values(to_opus(root, kbps)).len() == files.len(),
        files.map_values(to_opus(root, kbps))[i] == (MutationModel::Transcode {
            subject: files[i].track_id,
            source_path: paths::under(root, files[i].corpus_path),
            target_format: TranscodeTarget::Opus { bitrate_kbps: kbps },
            stash_name: "originals"@,
        }),
{
}

/// A bitrate that is changed goes by what is asked for, and not below 32 nor
/// above 512.
pub proof fn law_bitrate_is_changed(kbps: u32, delta: int)
    requires
        kbps <= i32::MAX,
    ensures
        bounded(reckoned(kbps) + delta) == (if kbps + delta < 32 {
            32
        } else if kbps + delta > 512 {
            512
        } else {
            kbps + delta
        }),
        BITRATE_STEP == 8,
{
}

/// The number of a type is the last one that was given for it, and each type that
/// was counted stands there once.
pub proof fn law_last_count_stands(counts: Seq<(Seq<char>, i64)>, t: Seq<char>, n: i64)
    ensures
        all_counted(counts).contains((t, n)) <==> exists|i: int|
            0 <= i < counts.len() && (#[trigger] counts[i]) == (t, n) && forall|j: int|
                i < j < counts.len() ==> (#[trigger] counts[j]).0 != t,
        forall|i: int, j: int|
            0 <= i < j < all_counted(counts).len() ==> (#[trigger] all_counted(counts)[i]).0 != (
            #[trigger] all_counted(counts)[j]).0,
    decreases counts.len(),
{
    if counts.len() > 0 {
        let init = counts.drop_last();
        let c = counts.last();
        law_last_count_stands(init, t, n);
        let before = all_counted(init);
        let after = all_counted(counts);
        let k = first_place(before, 0, counts_type(c.0));
        law_first_place(before, 0, counts_type(c.0));
        assert forall|i: int| 0 <= i < before.len() && i != k implies (#[trigger] before[i]).0
            != c.0 by {
            if i < k {
                assert(!counts_type(c.0)(before[i]));
            } else {
                assert(counts_type(c.0)(before[k as int]));
                assert(before[k as int].0 == c.0);
            }
        }
        if after.contains((t, n)) {
            let i = choose|i: int| 0 <= i < after.len() && after[i] == (t, n);
            if i == k {
                assert(counts[counts.len() - 1] == (t, n));
            } else {
                assert(before[i] == (t, n));
                assert(before.contains((t, n)));
                let j = choose|i: int|
                    0 <= i < init.len() && (#[trigger] init[i]) == (t, n) && forall|j: int|
                        i < j < init.len() ==> (#[trigger] init[j]).0 != t;
                assert(counts[j] == (t, n));
                assert forall|l: int| j < l < counts.len() implies (#[trigger] counts[l]).0 != t by {
                    if l < init.len() {
                        assert(init[l] == counts[l]);
                    }
                }
            }
        }
        if exists|i: int|
            0 <= i < counts.len() && (#[trigger] counts[i]) == (t, n) && forall|j: int|
                i < j < counts.len() ==> (#[trigger] counts[j]).0 != t {
            let i = choose|i: int|
                0 <= i < counts.len() && (#[trigger] counts[i]) == (t, n) && forall|j: int|
                    i < j < counts.len() ==> (#[trigger] counts[j]).0 != t;
            if i == init.len() {
                assert(after[k as int] == (t, n));
            } else {
                assert(counts[init.len() as int].0 != t);
                assert(init[i] == (t, n));
                assert forall|l: int| i < l < init.len() implies (#[trigger] init[l]).0 != t by {
                    assert(init[l] == counts[l]);
                }
                assert(before.contains((t, n)));
                let j = choose|j: int| 0 <= j < before.len() && before[j] == (t, n);
                assert(j != k) by {
                    if j == k {
                        assert(counts_type(c.0)(before[k as int]));
                    }
                }
                assert(after[j] == (t, n));
            }
        }
    }
}

/// The types of a breakdown are those that were counted, the commoner first.
pub proof fn law_commoner_types_first(counts: Seq<(Seq<char>, i64)>)
    ensures
        forall|i: int, j: int|
            0 <= i < j < in_order(counts, commoner()).len() ==> (
            #[trigger] in_order(counts, commoner())[i]).1 >= (
            #[trigger] in_order(counts, commoner())[j]).1,
        forall|c: (Seq<char>, i64)| #[trigger]
            in_order(counts, commoner()).contains(c) <==> counts.contains(c),
        in_order(counts, commoner()).len() == counts.len(),
{
    law_in_order(counts, commoner());
    law_in_order_contains(counts, commoner());
    let s = in_order(counts, commoner());
    assert forall|i: int, j: int| 0 <= i < j < s.len() implies (#[trigger] s[i]).1 >= (
    #[trigger] s[j]).1 by {
        assert(!commoner()(s[j], s[i]));
    }
}

/// The types that can be remuxed without loss.
pub open spec fn remuxed_type(t: Seq<char>) -> bool {
    let t = lowercase(t);
    t == "wav"@ || t == "aiff"@ || t == "aif"@ || t == "ape"@ || t == "wv"@
}

/// The types that were lossy before.
pub open spec fn lossy_type(t: Seq<char>) -> bool {
    let t = lowercase(t);
    t == "mp3"@ || t == "m4a"@ || t == "aac"@ || t == "wma"@
}

/// Whether an entry is made of a row whose path is known.
pub open spec fn entry_from(f: EntryModel, row: InodeRowModel) -> bool {
    row.corpus_path == Some(f.corpus_path) && f.inode == row.inode && f.file_type == row.file_type
}

/// A row whose path is known is loaded among the lossless or the lossy files as
/// its type is, and one of another type not at all.
pub proof fn law_rows_are_sorted_by_type(
    rows: Seq<InodeRowModel>,
    counts: Seq<(Seq<char>, i64)>,
    f: EntryModel,
)
    ensures
        DataModel::loaded(rows, counts).lossless_files.contains(f) <==> remuxed_type(f.file_type)
            && exists|i: int| 0 <= i < rows.len() && entry_from(f, #[trigger] rows[i]),
        DataModel::loaded(rows, counts).lossy_files.contains(f) <==> lossy_type(f.file_type)
            && exists|i: int| 0 <= i < rows.len() && entry_from(f, #[trigger] rows[i]),
        DataModel::loaded(rows, counts).opus_bitrate_kbps == 128,
        !DataModel::loaded(rows, counts).lossy_to_flac,
{
    crate::shit_format_modal::types::law_lossless_or_lossy(lowercase(f.file_type));
    lemma_rows(rows, lossless_row(), f);
    lemma_rows(rows, lossy_row(), f);
    let d = DataModel::loaded(rows, counts);
    if d.lossless_files.contains(f) {
        let i = choose|i: int|
            0 <= i < rows.len() && lossless_row()(#[trigger] rows[i]) && entry_from(f, rows[i]);
        assert(entry_from(f, rows[i]) && lossless_row()(rows[i]));
    }
    if d.lossy_files.contains(f) {
        let i = choose|i: int|
            0 <= i < rows.len() && lossy_row()(#[trigger] rows[i]) && entry_from(f, rows[i]);
        assert(entry_from(f, rows[i]) && lossy_row()(rows[i]));
    }
    if exists|i: int| 0 <= i < rows.len() && entry_from(f, #[trigger] rows[i]) {
        let i = choose|i: int| 0 <= i < rows.len() && entry_from(f, #[trigger] rows[i]);
        if remuxed_type(f.file_type) {
            assert(lossless_row()(rows[i]));
        }
        if lossy_type(f.file_type) {
            assert(lossy_row()(rows[i]));
        }
    }
}

proof fn lemma_rows(rows: Seq<InodeRowModel>, p: spec_fn(InodeRowModel) -> bool, f: EntryModel)
    requires
        forall|row: InodeRowModel| #[trigger] p(row) ==> row.corpus_path is Some,
    ensures
        picked(rows, p, entry_of()).contains(f) <==> exists|i: int|
            0 <= i < rows.len() && p(#[trigger] rows[i]) && entry_from(f, rows[i]),
{
    law_picked(rows, p, entry_of());
    let files = picked(rows, p, entry_of());
    if files.contains(f) {
        let i = choose|i: int|
            0 <= i < rows.len() && p(#[trigger] rows[i]) && entry_of()(rows[i]) == f;
        assert(p(rows[i]) && entry_from(f, rows[i]));
    }
    if exists|i: int| 0 <= i < rows.len() && p(#[trigger] rows[i]) && entry_from(f, rows[i]) {
        let i = choose|i: int|
            0 <= i < rows.len() && p(#[trigger] rows[i]) && entry_from(f, rows[i]);
        assert(p(rows[i]) && entry_of()(rows[i]) == f);
    }
}

/// Files are loaded in the order of their rows.
pub proof fn law_rows_are_loaded_in_turn(
    a: Seq<InodeRowModel>,
    b: Seq<InodeRowModel>,
    counts: Seq<(Seq<char>, i64)>,
)
    ensures
        DataModel::loaded(a + b, counts).lossless_files == DataModel::loaded(
            a,
            counts,
        ).lossless_files + DataModel::loaded(b, counts).lossless_files,
        DataModel::loaded(a + b, counts).lossy_files == DataModel::loaded(a, counts).lossy_files
            + DataModel::loaded(b, counts).lossy_files,
{
    law_picked_joined(a, b, lossless_row(), entry_of());
    law_picked_joined(a, b, lossy_row(), entry_of());
    lemma_nothing_picked(a);
    lemma_nothing_picked(b);
    lemma_nothing_picked(a + b);
}

proof fn lemma_nothing_picked(rows: Seq<InodeRowModel>)
    ensures
        rows.len() == 0 ==> picked(rows, lossless_row(), entry_of()).len() == 0,
        rows.len() == 0 ==> picked(rows, lossy_row(), entry_of()).len() == 0,
{
    law_chosen(rows, lossless_row());
    law_chosen(rows, lossy_row());
}

/// A lossless file becomes FLAC; a lossy one becomes Opus of the chosen bitrate,
/// or FLAC where that is asked for. Each keeps its original under its own inode.
pub proof fn law_each_file_is_converted(d: DataModel, root: Seq<char>, i: int)
    ensures
        d.lossless_changes(root).len() == d.lossless_files.len(),
        d.lossy_changes(root).len() == d.lossy_files.len(),
        0 <= i < d.lossless_files.len() ==> d.lossless_changes(root)[i]
            == (MutationModel::Transcode {
            subject: d.lossless_files[i].inode,
            source_path: paths::under(root, d.lossless_files[i].corpus_path),
            target_format: TranscodeTarget::Flac,
            stash_name: "originals"@,
        }),
        0 <= i < d.lossy_files.len() && !d.lossy_to_flac ==> d.lossy_changes(root)[i]
            == (MutationModel::Transcode {
            subject: d.lossy_files[i].inode,
            source_path: paths::under(root, d.lossy_files[i].corpus_path),
            target_format: TranscodeTarget::Opus { bitrate_kbps: d.opus_bitrate_kbps },
            stash_name: "originals"@,
        }),
        0 <= i < d.lossy_files.len() && d.lossy_to_flac ==> d.lossy_changes(root)[i]
            == (MutationModel::Transcode {
            subject: d.lossy_files[i].inode,
            source_path: paths::under(root, d.lossy_files[i].corpus_path),
            target_format: TranscodeTarget::FlacLossyCapture,
            stash_name: "originals"@,
        }),
{
}

/// The breakdowns hold the counted types of their kind, the commoner first.
pub proof fn law_breakdowns_hold_their_kind(d: DataModel, c: (Seq<char>, i64))
    ensures
        d.lossless_types().contains(c) <==> d.file_counts.contains(c) && remuxed_type(c.0),
        d.lossy_types().contains(c) <==> d.file_counts.contains(c) && lossy_type(c.0),
        forall|i: int, j: int|
            0 <= i < j < d.lossless_types().len() ==> (#[trigger] d.lossless_types()[i]).1 >= (
            #[trigger] d.lossless_types()[j]).1,
        forall|i: int, j: int|
            0 <= i < j < d.lossy_types().len() ==> (#[trigger] d.lossy_types()[i]).1 >= (
            #[trigger] d.lossy_types()[j]).1,
{
    let a = chosen(d.file_counts, counts_lossless());
    let b = chosen(d.file_counts, counts_lossy());
    law_commoner_types_first(a);
    law_commoner_types_first(b);
    law_chosen(d.file_counts, counts_lossless());
    law_chosen(d.file_counts, counts_lossy());
    assert(counts_lossless()(c) == remuxed_type(c.0));
    assert(counts_lossy()(c) == lossy_type(c.0));
    if a.contains(c) {
        let i = choose|i: int| 0 <= i < a.len() && a[i] == c;
        assert(counts_lossless()(a[i]) && d.file_counts.contains(a[i]));
    }
    if b.contains(c) {
        let i = choose|i: int| 0 <= i < b.len() && b[i] == c;
        assert(counts_lossy()(b[i]) && d.file_counts.contains(b[i]));
    }
    if d.file_counts.contains(c) {
        let i = choose|i: int| 0 <= i < d.file_counts.len() && d.file_counts[i] == c;
        if remuxed_type(c.0) {
            assert(a.contains(d.file_counts[i]));
        }
        if lossy_type(c.0) {
            assert(b.contains(d.file_counts[i]));
        }
    }
}

/// What Enter asks for is what the chosen button says, where there is a file of
/// its kind; and nothing is asked for on any key but Enter and Esc.
pub proof fn law_conversions_are_confirmed(m: FormatPreviewModel, key: KeyEvent)
    ensures
        m.key_step(key).1 == ShitFormatPreviewAction::ConfirmRemuxLossless <==> key.code
            == KeyCode::Enter && m.selected_button == SelectedButton::RemuxLossless
            && m.data.lossless_files.len() > 0,
        m.key_step(key).1 == ShitFormatPreviewAction::ConfirmTranscodeLossy <==> key.code
            == KeyCode::Enter && m.selected_button == SelectedButton::TranscodeLossy
            && m.data.lossy_files.len() > 0,
        m.key_step(key).1 == ShitFormatPreviewAction::ConfirmConvertAll <==> key.code
            == KeyCode::Enter && m.selected_button == SelectedButton::ConvertAll && (
        m.data.lossless_files.len() > 0 || m.data.lossy_files.len() > 0),
        m.key_step(key).1 == ShitFormatPreviewAction::Cancel <==> key.code == KeyCode::Esc || (
        key.code == KeyCode::Enter && m.selected_button == SelectedButton::Cancel),
{
}

/// Left and right change the bitrate by 8 at a button that transcodes, and go
/// along the buttons at any other.
pub proof fn law_arrows_change_the_bitrate(m: FormatPreviewModel, key: KeyEvent)
    requires
        m.data.in_bounds(),
    ensures
        ({
            let n = m.key_step(key).0;
            let left = key.code == KeyCode::Left || key.code == KeyCode::Char('h');
            let right = key.code == KeyCode::Right || key.code == KeyCode::Char('l');
            let transcodes = m.selected_button == SelectedButton::TranscodeLossy
                || m.selected_button == SelectedButton::ConvertAll;
            let kbps = m.data.opus_bitrate_kbps;
            &&& transcodes && right ==> n.data.opus_bitrate_kbps == (if kbps + 8 > 512 {
                512
            } else {
                kbps + 8
            })
            &&& transcodes && left ==> n.data.opus_bitrate_kbps == (if kbps - 8 < 32 {
                32
            } else {
                kbps - 8
            })
            &&& !(transcodes && (left || right)) ==> n.data == m.data
            &&& transcodes && (left || right) ==> n.selected_button == m.selected_button
            &&& !(left || right || key.code == KeyCode::Tab || key.code == KeyCode::BackTab)
                ==> n.selected_button == m.selected_button
        }),
{
}

/// Going along the buttons passes each one that has something to do, from the
/// first to Cancel, and back the same way.
pub proof fn law_buttons_are_gone_along(m: FormatPreviewModel, shift: bool, control: bool)
    ensures
        ({
            let tab = m.key_step(KeyEvent { code: KeyCode::Tab, shift, control }).0.selected_button;
            let back = m.key_step(
                KeyEvent { code: KeyCode::BackTab, shift, control },
            ).0.selected_button;
            let lossless = m.data.lossless_files.len() > 0;
            let lossy = m.data.lossy_files.len() > 0;
            let both = lossless && lossy;
            &&& m.selected_button == SelectedButton::RemuxLossless && lossy ==> tab
                == SelectedButton::TranscodeLossy
            &&& m.selected_button == SelectedButton::RemuxLossless && !lossy ==> tab
                == SelectedButton::Cancel
            &&& m.selected_button == SelectedButton::TranscodeLossy && both ==> tab
                == SelectedButton::ConvertAll
            &&& m.selected_button == SelectedButton::TranscodeLossy && !both ==> tab
                == SelectedButton::Cancel
            &&& m.selected_button == SelectedButton::ConvertAll ==> tab == SelectedButton::Cancel
            &&& m.selected_button == SelectedButton::Cancel ==> tab == SelectedButton::Cancel
            &&& m.selected_button == SelectedButton::Cancel && both ==> back
                == SelectedButton::ConvertAll
            &&& m.selected_button == SelectedButton::Cancel && lossy && !lossless ==> back
                == SelectedButton::TranscodeLossy
            &&& m.selected_button == SelectedButton::Cancel && lossless && !lossy ==> back
                == SelectedButton::RemuxLossless
            &&& m.selected_button == SelectedButton::ConvertAll ==> back
                == SelectedButton::TranscodeLossy
            &&& m.selected_button == SelectedButton::TranscodeLossy && lossless ==> back
                == SelectedButton::RemuxLossless
        }),
{
}

/// The files are walked one by one or ten by ten, the lossless before the lossy,
/// and not past the ends.
pub proof fn law_files_are_walked(m: FormatPreviewModel, key: KeyEvent)
    requires
        0 < m.data.lossless_files.len() + m.data.lossy_files.len() <= usize::MAX,
        m.scroll < m.data.lossless_files.len() + m.data.lossy_files.len(),
    ensures
        ({
            let n = m.key_step(key).0.scroll;
            let all = m.data.lossless_files.len() + m.data.lossy_files.len();
            let up = key.code == KeyCode::Up || key.code == KeyCode::Char('k');
            let down = key.code == KeyCode::Down || key.code == KeyCode::Char('j');
            &&& up ==> n == (if m.scroll == 0 {
                0
            } else {
                m.scroll - 1
            })
            &&& down ==> n == (if m.scroll + 1 == all {
                m.scroll as int
            } else {
                m.scroll + 1
            })
            &&& key.code == KeyCode::PageUp ==> n == (if m.scroll < 10 {
                0
            } else {
                m.scroll - 10
            })
            &&& key.code == KeyCode::PageDown && m.scroll + 10 <= usize::MAX ==> n == (if m.scroll
                + 10 < all {
                m.scroll + 10
            } else {
                all - 1
            })
            &&& !(up || down || key.code == KeyCode::PageUp || key.code == KeyCode::PageDown) ==> n
                == m.scroll
        }),
{
}

/// The screen opens at the first button that has something to do.
pub proof fn law_first_useful_button(data: DataModel)
    ensures
        FormatPreviewModel::opened(data).data == data,
        FormatPreviewModel::opened(data).scroll == 0,
        data.lossless_files.len() > 0 ==> FormatPreviewModel::opened(data).selected_button
            == SelectedButton::RemuxLossless,
        data.lossless_files.len() == 0 && data.lossy_files.len() > 0 ==> FormatPreviewModel::opened(
            data,
        ).selected_button == SelectedButton::TranscodeLossy,
        data.lossless_files.len() == 0 && data.lossy_files.len() == 0
            ==> FormatPreviewModel::opened(data).selected_button == SelectedButton::Cancel,
{
}

} // verus!
