//! The files to be converted to Opus, and the mutations that do it.

use vstd::prelude::*;

use crate::corpus::{Mutation, MutationModel, TranscodeTarget};
use crate::lists::{first_place, lemma_picked_start, lemma_picked_step, picked, set_item};
use crate::ordering::{in_order, sorted, Ranked};
use crate::paths;
use crate::screen::{nothing, put};
use crate::text;

verus! {

/// The bitrate to begin with.
pub const DEFAULT_OPUS_BITRATE: u32 = 128;

/// The lowest bitrate.
pub const MIN_OPUS_BITRATE: u32 = 32;

/// The highest bitrate.
pub const MAX_OPUS_BITRATE: u32 = 512;

/// By how much the bitrate goes up or down.
pub const BITRATE_STEP: u32 = 8;

/// A bitrate brought between the lowest and the highest.
pub open spec fn bounded(kbps: int) -> u32 {
    if kbps < MIN_OPUS_BITRATE {
        MIN_OPUS_BITRATE
    } else if kbps > MAX_OPUS_BITRATE {
        MAX_OPUS_BITRATE
    } else {
        kbps as u32
    }
}

/// A bitrate as a number with a sign. One from the upper half of its range counts
/// as below zero.
pub open spec fn reckoned(kbps: u32) -> int {
    if kbps <= i32::MAX {
        kbps as int
    } else {
        kbps - 0x1_0000_0000
    }
}

/// Whether a bitrate can be changed by some without leaving the numbers with a
/// sign.
pub open spec fn can_change(kbps: u32, delta: int) -> bool {
    i32::MIN <= reckoned(kbps) + delta <= i32::MAX
}

/// A bitrate changed by some, between the lowest and the highest.
pub fn adjusted(kbps: u32, delta: i32) -> (r: u32)
    requires
        can_change(kbps, delta as int),
    ensures
        r == bounded(reckoned(kbps) + delta),
{
    let from: i64 = if kbps <= i32::MAX as u32 {
        kbps as i64
    } else {
        kbps as i64 - 0x1_0000_0000
    };
    let sum: i64 = from + delta as i64;
    if sum < MIN_OPUS_BITRATE as i64 {
        MIN_OPUS_BITRATE
    } else if sum > MAX_OPUS_BITRATE as i64 {
        MAX_OPUS_BITRATE
    } else {
        sum as u32
    }
}

/// The commonest type stands first.
impl Ranked for (String, i64) {
    open spec fn precedes(a: (Seq<char>, i64), b: (Seq<char>, i64)) -> bool {
        a.1 > b.1
    }

    fn before(&self, other: &Self) -> (r: bool) {
        self.1 > other.1
    }
}

/// Whether one type is commoner than another.
pub open spec fn commoner() -> spec_fn((Seq<char>, i64), (Seq<char>, i64)) -> bool {
    |a: (Seq<char>, i64), b: (Seq<char>, i64)| <(String, i64)>::precedes(a, b)
}

/// The condition of being the count of a type.
pub open spec fn counts_type(t: Seq<char>) -> spec_fn((Seq<char>, i64)) -> bool {
    |c: (Seq<char>, i64)| c.0 == t
}

/// Counts with one more; a count of the same type gives way to it.
pub open spec fn counted(counts: Seq<(Seq<char>, i64)>, c: (Seq<char>, i64)) -> Seq<
    (Seq<char>, i64),
> {
    let i = first_place(counts, 0, counts_type(c.0));
    if i < counts.len() {
        counts.update(i as int, c)
    } else {
        counts.push(c)
    }
}

/// Counts, each type once.
pub open spec fn all_counted(counts: Seq<(Seq<char>, i64)>) -> Seq<(Seq<char>, i64)>
    decreases counts.len(),
{
    if counts.len() == 0 {
        Seq::empty()
    } else {
        counted(all_counted(counts.drop_last()), counts.last())
    }
}

fn count_type(counts: &mut Vec<(String, i64)>, c: (String, i64))
    ensures
        final(counts).deep_view() == counted(old(counts).deep_view(), c.deep_view()),
{
    let ghost s = counts.deep_view();
    let mut i: usize = 0;
    while i < counts.len() && !text::same(counts[i].0.as_str(), c.0.as_str())
        invariant
            i <= counts.len(),
            s == counts.deep_view(),
            first_place(s, 0, counts_type(c.0@)) == first_place(s, i as nat, counts_type(c.0@)),
        decreases counts.len() - i,
    {
        proof {
            assert(s[i as int].0 == counts[i as int].0@);
        }
        i = i + 1;
    }
    proof {
        assert(i < counts.len() ==> s[i as int].0 == counts[i as int].0@);
    }
    if i < counts.len() {
        set_item(counts, i, c);
    } else {
        put(counts, c);
    }
}

/// Counts, each type once.
pub fn count_types(raw: &Vec<(String, i64)>) -> (r: Vec<(String, i64)>)
    ensures
        r.deep_view() == all_counted(raw.deep_view()),
{
    let ghost s = raw.deep_view();
    let mut out: Vec<(String, i64)> = nothing();
    proof {
        assert(s.take(0) =~= Seq::<(Seq<char>, i64)>::empty());
    }
    let mut i: usize = 0;
    while i < raw.len()
        invariant
            i <= raw.len(),
            s == raw.deep_view(),
            out.deep_view() == all_counted(s.take(i as int)),
        decreases raw.len() - i,
    {
        let c: (String, i64) = (raw[i].0.clone(), raw[i].1);
        proof {
            assert(s.take(i as int + 1).drop_last() =~= s.take(i as int));
            assert(s.take(i as int + 1).last() == c.deep_view());
        }
        count_type(&mut out, c);
        i = i + 1;
    }
    proof {
        assert(s.take(s.len() as int) =~= s);
    }
    out
}

/// A copy of counts.
pub fn copy_counts(counts: &Vec<(String, i64)>) -> (r: Vec<(String, i64)>)
    ensures
        r.deep_view() == counts.deep_view(),
{
    let mut out: Vec<(String, i64)> = nothing();
    let mut i: usize = 0;
    while i < counts.len()
        invariant
            i <= counts.len(),
            out.len() == i,
            forall|k: int| 0 <= k < i ==> (#[trigger] out[k]).deep_view() == counts.deep_view()[k],
        decreases counts.len() - i,
    {
        let c: (String, i64) = (counts[i].0.clone(), counts[i].1);
        proof {
            assert(c.deep_view() == counts.deep_view()[i as int]);
        }
        out.push(c);
        i = i + 1;
    }
    proof {
        assert(out.deep_view() =~= counts.deep_view());
    }
    out
}

/// A file to be converted.
#[derive(Debug)]
pub struct ShitFormatEntry {
    /// The path in the corpus
    pub corpus_path: String,
    /// The number of the track
    pub track_id: i64,
    /// The file type
    pub file_type: String,
}

/// The model of a [`ShitFormatEntry`].
pub struct FormatEntryModel {
    pub corpus_path: Seq<char>,
    pub track_id: i64,
    pub file_type: Seq<char>,
}

impl DeepView for ShitFormatEntry {
    type V = FormatEntryModel;

    open spec fn deep_view(&self) -> FormatEntryModel {
        FormatEntryModel {
            corpus_path: self.corpus_path@,
            track_id: self.track_id,
            file_type: self.file_type@,
        }
    }
}

/// A track that was looked up, with its number if it has one.
#[derive(Debug, Clone, Copy, PartialEq, Eq, Structural)]
pub struct TrackFound {
    pub id: Option<i64>,
}

/// A signal on a file, with the track at its path, if there is one.
#[derive(Debug)]
pub struct FormatRow {
    pub corpus_path: String,
    pub file_type: String,
    pub track: Option<TrackFound>,
}

/// The model of a [`FormatRow`].
pub struct FormatRowModel {
    pub corpus_path: Seq<char>,
    pub file_type: Seq<char>,
    pub track: Option<TrackFound>,
}

impl DeepView for FormatRow {
    type V = FormatRowModel;

    open spec fn deep_view(&self) -> FormatRowModel {
        FormatRowModel {
            corpus_path: self.corpus_path@,
            file_type: self.file_type@,
            track: self.track,
        }
    }
}

/// The condition of there being a track.
pub open spec fn has_track() -> spec_fn(FormatRowModel) -> bool {
    |row: FormatRowModel| row.track is Some
}

/// The file of a signal.
pub open spec fn format_entry() -> spec_fn(FormatRowModel) -> FormatEntryModel {
    |row: FormatRowModel|
        FormatEntryModel {
            corpus_path: row.corpus_path,
            track_id: match row.track->0.id {
                Some(id) => id,
                None => 0,
            },
            file_type: row.file_type,
        }
}

/// The files, and what they are converted to.
#[derive(Debug)]
pub struct ShitFormatModalData {
    /// The files
    pub files: Vec<ShitFormatEntry>,
    /// How many there are of each type
    pub file_counts: Vec<(String, i64)>,
    /// The bitrate of Opus
    pub opus_bitrate_kbps: u32,
}

/// The model of a [`ShitFormatModalData`].
pub struct FormatDataModel {
    pub files: Seq<FormatEntryModel>,
    pub file_counts: Seq<(Seq<char>, i64)>,
    pub opus_bitrate_kbps: u32,
}

impl DeepView for ShitFormatModalData {
    type V = FormatDataModel;

    open spec fn deep_view(&self) -> FormatDataModel {
        FormatDataModel {
            files: self.files.deep_view(),
            file_counts: self.file_counts.deep_view(),
            opus_bitrate_kbps: self.opus_bitrate_kbps,
        }
    }
}

impl FormatDataModel {
    /// The bitrate lies between the lowest and the highest.
    pub open spec fn wf(self) -> bool {
        MIN_OPUS_BITRATE <= self.opus_bitrate_kbps <= MAX_OPUS_BITRATE
    }

    /// No files.
    pub open spec fn empty() -> Self {
        FormatDataModel {
            files: Seq::empty(),
            file_counts: Seq::empty(),
            opus_bitrate_kbps: DEFAULT_OPUS_BITRATE,
        }
    }

    /// The files of the signals: those with a track. Where there are no signals,
    /// the counts are dropped too.
    pub open spec fn loaded(rows: Seq<FormatRowModel>, counts: Seq<(Seq<char>, i64)>) -> Self {
        if rows.len() == 0 {
            FormatDataModel::empty()
        } else {
            FormatDataModel {
                files: picked(rows, has_track(), format_entry()),
                file_counts: all_counted(counts),
                opus_bitrate_kbps: DEFAULT_OPUS_BITRATE,
            }
        }
    }
}

/// The mutation that converts a file to Opus.
pub open spec fn to_opus(root: Seq<char>, kbps: u32) -> spec_fn(FormatEntryModel) -> MutationModel {
    |f: FormatEntryModel|
        MutationModel::Transcode {
            subject: f.track_id,
            source_path: paths::under(root, f.corpus_path),
            target_format: TranscodeTarget::Opus { bitrate_kbps: kbps },
            stash_name: "originals"@,
        }
}

impl Default for ShitFormatModalData {
    /// No files.
    fn default() -> (r: Self)
        ensures
            r.deep_view() == FormatDataModel::empty(),
    {
        ShitFormatModalData {
            files: nothing(),
            file_counts: nothing(),
            opus_bitrate_kbps: DEFAULT_OPUS_BITRATE,
        }
    }
}

impl ShitFormatModalData {
    /// The files of the signals, with the counts by type.
    pub fn load(rows: Vec<FormatRow>, counts: &Vec<(String, i64)>) -> (r: Self)
        ensures
            r.deep_view() == FormatDataModel::loaded(rows.deep_view(), counts.deep_view()),
            r.deep_view().wf(),
    {
        let ghost s = rows.deep_view();
        proof {
            assert(s.len() == rows.len());
        }
        if rows.len() == 0 {
            return Self::default();
        }
        let mut files: Vec<ShitFormatEntry> = nothing();
        proof {
            lemma_picked_start(s, has_track(), format_entry());
        }
        let mut i: usize = 0;
        while i < rows.len()
            invariant
                i <= rows.len(),
                s == rows.deep_view(),
                files.deep_view() == picked(s.take(i as int), has_track(), format_entry()),
            decreases rows.len() - i,
        {
            proof {
                lemma_picked_step(s, i as int, has_track(), format_entry());
            }
            if let Some(track) = rows[i].track {
                let entry: ShitFormatEntry = ShitFormatEntry {
                    corpus_path: rows[i].corpus_path.clone(),
                    track_id: match track.id {
                        Some(id) => id,
                        None => 0,
                    },
                    file_type: rows[i].file_type.clone(),
                };
                proof {
                    assert(entry.deep_view() == format_entry()(s[i as int]));
                }
                put(&mut files, entry);
            }
            i = i + 1;
        }
        proof {
            assert(s.take(s.len() as int) =~= s);
        }
        ShitFormatModalData {
            files,
            file_counts: count_types(counts),
            opus_bitrate_kbps: DEFAULT_OPUS_BITRATE,
        }
    }

    /// How many files there are.
    pub fn total_count(&self) -> (r: usize)
        ensures
            r == self.deep_view().files.len(),
    {
        self.files.len()
    }

    /// Whether there are files.
    pub fn has_files(&self) -> (r: bool)
        ensures
            r == (self.deep_view().files.len() > 0),
    {
        self.files.len() > 0
    }

    /// The types with their counts, the commonest first.
    pub fn type_breakdown(&self) -> (r: Vec<(String, i64)>)
        ensures
            r.deep_view() == in_order(self.deep_view().file_counts, commoner()),
    {
        sorted(copy_counts(&self.file_counts))
    }

    /// Changes the bitrate, between the lowest and the highest.
    pub fn adjust_bitrate(&mut self, delta: i32)
        requires
            can_change(old(self).deep_view().opus_bitrate_kbps, delta as int),
        ensures
            final(self).deep_view() == (FormatDataModel {
                opus_bitrate_kbps: bounded(
                    reckoned(old(self).deep_view().opus_bitrate_kbps) + delta,
                ),
                ..old(self).deep_view()
            }),
            final(self).deep_view().wf(),
    {
        self.opus_bitrate_kbps = adjusted(self.opus_bitrate_kbps, delta);
    }

    /// Lowers the bitrate by a step.
    pub fn decrease_bitrate(&mut self)
        requires
            can_change(old(self).deep_view().opus_bitrate_kbps, -BITRATE_STEP),
        ensures
            final(self).deep_view() == (FormatDataModel {
                opus_bitrate_kbps: bounded(
                    reckoned(old(self).deep_view().opus_bitrate_kbps) - BITRATE_STEP,
                ),
                ..old(self).deep_view()
            }),
            final(self).deep_view().wf(),
    {
        self.adjust_bitrate(-(BITRATE_STEP as i32));
    }

    /// Raises the bitrate by a step.
    pub fn increase_bitrate(&mut self)
        requires
            can_change(old(self).deep_view().opus_bitrate_kbps, BITRATE_STEP as int),
        ensures
            final(self).deep_view() == (FormatDataModel {
                opus_bitrate_kbps: bounded(
                    reckoned(old(self).deep_view().opus_bitrate_kbps) + BITRATE_STEP,
                ),
                ..old(self).deep_view()
            }),
            final(self).deep_view().wf(),
    {
        self.adjust_bitrate(BITRATE_STEP as i32);
    }

    /// The mutations that convert all files.
    pub fn transcode_mutations(&self, root: &str) -> (r: Vec<Mutation>)
        ensures
            r.deep_view() == self.deep_view().files.map_values(
                to_opus(root@, self.deep_view().opus_bitrate_kbps),
            ),
            r.len() == self.deep_view().files.len(),
            forall|i: int|
                0 <= i < r.len() ==> #[trigger] r.deep_view()[i] == (MutationModel::Transcode {
                    subject: self.deep_view().files[i].track_id,
                    source_path: paths::under(root@, self.deep_view().files[i].corpus_path),
                    target_format: TranscodeTarget::Opus {
                        bitrate_kbps: self.deep_view().opus_bitrate_kbps,
                    },
                    stash_name: "originals"@,
                }),
    {
        let ghost s = self.files.deep_view();
        let ghost g = to_opus(root@, self.opus_bitrate_kbps);
        let mut out: Vec<Mutation> = nothing();
        let mut i: usize = 0;
        while i < self.files.len()
            invariant
                i <= self.files.len(),
                s == self.files.deep_view(),
                g == to_opus(root@, self.opus_bitrate_kbps),
                out.len() == i,
                forall|k: int| 0 <= k < i ==> (#[trigger] out[k]).deep_view() == g(s[k]),
            decreases self.files.len() - i,
        {
            let m: Mutation = Mutation::Transcode {
                subject: self.files[i].track_id,
                source_path: paths::resolve(root, self.files[i].corpus_path.as_str()),
                target_format: TranscodeTarget::Opus { bitrate_kbps: self.opus_bitrate_kbps },
                stash_name: "originals".to_owned(),
            };
            proof {
                assert(m.deep_view() == g(s[i as int]));
            }
            out.push(m);
            i = i + 1;
        }
        proof {
            assert(out.deep_view() =~= s.map_values(g));
        }
        out
    }
}

/// The buttons.
#[derive(Debug, Clone, Copy, PartialEq, Eq, Structural, Default)]
pub enum SelectedButton {
    TranscodeAll,
    #[default]
    Cancel,
}

impl SelectedButton {
    /// Goes to the left, where there is something to convert.
    pub fn left(&mut self, has_files: bool)
        ensures
            *final(self) == (if has_files {
                SelectedButton::TranscodeAll
            } else {
                *old(self)
            }),
    {
        if *self == SelectedButton::Cancel && has_files {
            *self = SelectedButton::TranscodeAll;
        }
    }

    /// Goes to the right.
    pub fn right(&mut self, _has_files: bool)
        ensures
            *final(self) == SelectedButton::Cancel,
    {
        *self = SelectedButton::Cancel;
    }
}

/// The bitrate stays between the lowest and the highest, and a step down takes
/// back a step up that was not cut short.
pub proof fn law_bitrate_steps(kbps: u32)
    requires
        MIN_OPUS_BITRATE <= kbps <= MAX_OPUS_BITRATE,
    ensures
        MIN_OPUS_BITRATE <= bounded(kbps + BITRATE_STEP) <= MAX_OPUS_BITRATE,
        MIN_OPUS_BITRATE <= bounded(kbps - BITRATE_STEP) <= MAX_OPUS_BITRATE,
        kbps + BITRATE_STEP <= MAX_OPUS_BITRATE ==> bounded(
            bounded(kbps + BITRATE_STEP) - BITRATE_STEP,
        ) == kbps,
{
}

} // verus!
