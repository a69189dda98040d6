//! The files to be converted, the lossless to FLAC and the lossy to Opus or to
//! FLAC as they are, and the mutations that do it.

use vstd::prelude::*;

use crate::corpus::{Mutation, MutationModel, TranscodeTarget};
use crate::lists::{chosen, lemma_chosen_start, lemma_chosen_step, lemma_picked_start, lemma_picked_step, picked};
use crate::ordering::{in_order, sorted};
use crate::paths;
use crate::screen::{nothing, put, put_all};
use crate::shit_format_flow::types::{adjusted, bounded, can_change, commoner, count_types, all_counted, reckoned, BITRATE_STEP, DEFAULT_OPUS_BITRATE, MAX_OPUS_BITRATE, MIN_OPUS_BITRATE};
use crate::text::{self, lowercase};

verus! {

/// Whether a type in small letters can be brought to FLAC without loss.
pub open spec fn lossless_format(t: Seq<char>) -> bool {
    t == "wav"@ || t == "aiff"@ || t == "aif"@ || t == "ape"@ || t == "wv"@
}

/// Whether a type in small letters has lost something already.
pub open spec fn lossy_format(t: Seq<char>) -> bool {
    t == "mp3"@ || t == "m4a"@ || t == "aac"@ || t == "wma"@
}

/// Whether a type can be brought to FLAC without loss.
pub fn is_lossless_type(file_type: &str) -> (r: bool)
    ensures
        r == lossless_format(lowercase(file_type@)),
{
    let s: String = text::to_lowercase(file_type);
    let t: &str = s.as_str();
    text::same(t, "wav") || text::same(t, "aiff") || text::same(t, "aif") || text::same(t, "ape")
        || text::same(t, "wv")
}

/// Whether a type has lost something already.
pub fn is_lossy_type(file_type: &str) -> (r: bool)
    ensures
        r == lossy_format(lowercase(file_type@)),
{
    let s: String = text::to_lowercase(file_type);
    let t: &str = s.as_str();
    text::same(t, "mp3") || text::same(t, "m4a") || text::same(t, "aac") || text::same(t, "wma")
}

/// A file to be converted.
#[derive(Debug)]
pub struct ShitFormatEntry {
    /// The path in the corpus
    pub corpus_path: String,
    /// The inode
    pub inode: i64,
    /// The file type
    pub file_type: String,
}

/// The model of a [`ShitFormatEntry`].
pub struct EntryModel {
    pub corpus_path: Seq<char>,
    pub inode: i64,
    pub file_type: Seq<char>,
}

impl DeepView for ShitFormatEntry {
    type V = EntryModel;

    open spec fn deep_view(&self) -> EntryModel {
        EntryModel {
            corpus_path: self.corpus_path@,
            inode: self.inode,
            file_type: self.file_type@,
        }
    }
}

impl ShitFormatEntry {
    /// Whether it can be brought to FLAC without loss.
    pub fn is_lossless(&self) -> (r: bool)
        ensures
            r == lossless_format(lowercase(self.deep_view().file_type)),
    {
        is_lossless_type(self.file_type.as_str())
    }

    /// Whether it has lost something already.
    pub fn is_lossy(&self) -> (r: bool)
        ensures
            r == lossy_format(lowercase(self.deep_view().file_type)),
    {
        is_lossy_type(self.file_type.as_str())
    }
}

/// A signal on a file, with the path at which its inode is now, if it is
/// anywhere.
#[derive(Debug)]
pub struct InodeRow {
    pub inode: i64,
    pub file_type: String,
    pub corpus_path: Option<String>,
}

/// The model of an [`InodeRow`].
pub struct InodeRowModel {
    pub inode: i64,
    pub file_type: Seq<char>,
    pub corpus_path: Option<Seq<char>>,
}

impl DeepView for InodeRow {
    type V = InodeRowModel;

    open spec fn deep_view(&self) -> InodeRowModel {
        InodeRowModel {
            inode: self.inode,
            file_type: self.file_type@,
            corpus_path: self.corpus_path.deep_view(),
        }
    }
}

/// The condition of being there and lossless.
pub open spec fn lossless_row() -> spec_fn(InodeRowModel) -> bool {
    |row: InodeRowModel| row.corpus_path is Some && lossless_format(lowercase(row.file_type))
}

/// The condition of being there and lossy.
pub open spec fn lossy_row() -> spec_fn(InodeRowModel) -> bool {
    |row: InodeRowModel|
        row.corpus_path is Some && lossy_format(lowercase(row.file_type)) && !lossless_format(
            lowercase(row.file_type),
        )
}

/// The file of a signal.
pub open spec fn entry_of() -> spec_fn(InodeRowModel) -> EntryModel {
    |row: InodeRowModel|
        EntryModel {
            corpus_path: row.corpus_path->0,
            inode: row.inode,
            file_type: row.file_type,
        }
}

/// The files, and what they are converted to.
#[derive(Debug)]
pub struct ShitFormatModalData {
    /// The lossless files
    pub lossless_files: Vec<ShitFormatEntry>,
    /// The lossy files
    pub lossy_files: Vec<ShitFormatEntry>,
    /// How many there are of each type
    pub file_counts: Vec<(String, i64)>,
    /// The bitrate of Opus
    pub opus_bitrate_kbps: u32,
    /// Whether lossy files are kept as they sound, in FLAC
    pub lossy_to_flac: bool,
}

/// The model of a [`ShitFormatModalData`].
pub struct DataModel {
    pub lossless_files: Seq<EntryModel>,
    pub lossy_files: Seq<EntryModel>,
    pub file_counts: Seq<(Seq<char>, i64)>,
    pub opus_bitrate_kbps: u32,
    pub lossy_to_flac: bool,
}

impl DeepView for ShitFormatModalData {
    type V = DataModel;

    open spec fn deep_view(&self) -> DataModel {
        DataModel {
            lossless_files: self.lossless_files.deep_view(),
            lossy_files: self.lossy_files.deep_view(),
            file_counts: self.file_counts.deep_view(),
            opus_bitrate_kbps: self.opus_bitrate_kbps,
            lossy_to_flac: self.lossy_to_flac,
        }
    }
}

/// The condition of counting a lossless type.
pub open spec fn counts_lossless() -> spec_fn((Seq<char>, i64)) -> bool {
    |c: (Seq<char>, i64)| lossless_format(lowercase(c.0))
}

/// The condition of counting a lossy type.
pub open spec fn counts_lossy() -> spec_fn((Seq<char>, i64)) -> bool {
    |c: (Seq<char>, i64)| lossy_format(lowercase(c.0))
}

/// The mutation that converts a file.
pub open spec fn converted(root: Seq<char>, target: TranscodeTarget) -> spec_fn(
    EntryModel,
) -> MutationModel {
    |f: EntryModel|
        MutationModel::Transcode {
            subject: f.inode,
            source_path: paths::under(root, f.corpus_path),
            target_format: target,
            stash_name: "originals"@,
        }
}

impl DataModel {
    /// The files can be counted.
    pub open spec fn countable(self) -> bool {
        self.lossless_files.len() + self.lossy_files.len() <= usize::MAX
    }

    /// The files can be counted, and the bitrate can go a step up and down.
    pub open spec fn wf(self) -> bool {
        &&& self.countable()
        &&& can_change(self.opus_bitrate_kbps, -BITRATE_STEP)
        &&& can_change(self.opus_bitrate_kbps, BITRATE_STEP as int)
    }

    /// The bitrate lies between the lowest and the highest.
    pub open spec fn in_bounds(self) -> bool {
        MIN_OPUS_BITRATE <= self.opus_bitrate_kbps <= MAX_OPUS_BITRATE
    }

    /// No files.
    pub open spec fn empty() -> Self {
        DataModel {
            lossless_files: Seq::empty(),
            lossy_files: Seq::empty(),
            file_counts: Seq::empty(),
            opus_bitrate_kbps: DEFAULT_OPUS_BITRATE,
            lossy_to_flac: false,
        }
    }

    /// The files of the signals, apart. Those that are gone and those of other
    /// types are passed over. Where there are no signals, the counts are
    /// dropped too.
    pub open spec fn loaded(rows: Seq<InodeRowModel>, counts: Seq<(Seq<char>, i64)>) -> Self {
        if rows.len() == 0 {
            DataModel::empty()
        } else {
            DataModel {
                lossless_files: picked(rows, lossless_row(), entry_of()),
                lossy_files: picked(rows, lossy_row(), entry_of()),
                file_counts: all_counted(counts),
                opus_bitrate_kbps: DEFAULT_OPUS_BITRATE,
                lossy_to_flac: false,
            }
        }
    }

    /// The bitrate changed by some, between the lowest and the highest.
    pub open spec fn with_change(self, delta: int) -> Self {
        DataModel {
            opus_bitrate_kbps: bounded(reckoned(self.opus_bitrate_kbps) + delta),
            ..self
        }
    }

    /// The lossless types with their counts, the commonest first.
    pub open spec fn lossless_types(self) -> Seq<(Seq<char>, i64)> {
        in_order(chosen(self.file_counts, counts_lossless()), commoner())
    }

    /// The lossy types with their counts, the commonest first.
    pub open spec fn lossy_types(self) -> Seq<(Seq<char>, i64)> {
        in_order(chosen(self.file_counts, counts_lossy()), commoner())
    }

    /// What lossy files are converted to.
    pub open spec fn lossy_target(self) -> TranscodeTarget {
        if self.lossy_to_flac {
            TranscodeTarget::FlacLossyCapture
        } else {
            TranscodeTarget::Opus { bitrate_kbps: self.opus_bitrate_kbps }
        }
    }

    /// The mutations for the lossless files.
    pub open spec fn lossless_changes(self, root: Seq<char>) -> Seq<MutationModel> {
        self.lossless_files.map_values(converted(root, TranscodeTarget::Flac))
    }

    /// The mutations for the lossy files.
    pub open spec fn lossy_changes(self, root: Seq<char>) -> Seq<MutationModel> {
        self.lossy_files.map_values(converted(root, self.lossy_target()))
    }
}

impl Default for ShitFormatModalData {
    /// No files.
    fn default() -> (r: Self)
        ensures
            r.deep_view() == DataModel::empty(),
    {
        ShitFormatModalData {
            lossless_files: nothing(),
            lossy_files: nothing(),
            file_counts: nothing(),
            opus_bitrate_kbps: DEFAULT_OPUS_BITRATE,
            lossy_to_flac: false,
        }
    }
}

/// The mutations that convert files.
fn convert(files: &Vec<ShitFormatEntry>, root: &str, target: TranscodeTarget) -> (r: Vec<Mutation>)
    ensures
        r.deep_view() == files.deep_view().map_values(converted(root@, target)),
{
    let ghost s = files.deep_view();
    let ghost g = converted(root@, target);
    let mut out: Vec<Mutation> = nothing();
    let mut i: usize = 0;
    while i < files.len()
        invariant
            i <= files.len(),
            s == files.deep_view(),
            g == converted(root@, target),
            out.len() == i,
            forall|k: int| 0 <= k < i ==> (#[trigger] out[k]).deep_view() == g(s[k]),
        decreases files.len() - i,
    {
        let m: Mutation = Mutation::Transcode {
            subject: files[i].inode,
            source_path: paths::resolve(root, files[i].corpus_path.as_str()),
            target_format: target,
            stash_name: "originals".to_owned(),
        };
        proof {
            assert(m.deep_view() == g(s[i as int]));
        }
        out.push(m);
        i = i + 1;
    }
    proof {
        assert(out.deep_view() =~= s.map_values(g));
    }
    out
}

impl ShitFormatModalData {
    /// The files of the signals, with the counts by type.
    pub fn load(rows: Vec<InodeRow>, counts: &Vec<(String, i64)>) -> (r: Self)
        ensures
            r.deep_view() == DataModel::loaded(rows.deep_view(), counts.deep_view()),
            r.deep_view().wf(),
            r.deep_view().in_bounds(),
    {
        let ghost s = rows.deep_view();
        proof {
            assert(s.len() == rows.len());
        }
        if rows.len() == 0 {
            return Self::default();
        }
        let mut lossless_files: Vec<ShitFormatEntry> = nothing();
        let mut lossy_files: Vec<ShitFormatEntry> = nothing();
        proof {
            lemma_picked_start(s, lossless_row(), entry_of());
            lemma_picked_start(s, lossy_row(), entry_of());
        }
        let mut i: usize = 0;
        while i < rows.len()
            invariant
                i <= rows.len(),
                s == rows.deep_view(),
                lossless_files.deep_view() == picked(
                    s.take(i as int),
                    lossless_row(),
                    entry_of(),
                ),
                lossy_files.deep_view() == picked(s.take(i as int), lossy_row(), entry_of()),
                lossless_files.deep_view().len() + lossy_files.deep_view().len() <= i,
            decreases rows.len() - i,
        {
            proof {
                lemma_picked_step(s, i as int, lossless_row(), entry_of());
                lemma_picked_step(s, i as int, lossy_row(), entry_of());
            }
            if let Some(path) = &rows[i].corpus_path {
                let entry: ShitFormatEntry = ShitFormatEntry {
                    corpus_path: path.clone(),
                    inode: rows[i].inode,
                    file_type: rows[i].file_type.clone(),
                };
                proof {
                    assert(entry.deep_view() == entry_of()(s[i as int]));
                }
                if entry.is_lossless() {
                    put(&mut lossless_files, entry);
                } else if entry.is_lossy() {
                    put(&mut lossy_files, entry);
                }
            }
            i = i + 1;
        }
        proof {
            assert(s.take(s.len() as int) =~= s);
        }
        ShitFormatModalData {
            lossless_files,
            lossy_files,
            file_counts: count_types(counts),
            opus_bitrate_kbps: DEFAULT_OPUS_BITRATE,
            lossy_to_flac: false,
        }
    }

    /// How many files there are.
    pub fn total_count(&self) -> (r: usize)
        requires
            self.deep_view().countable(),
        ensures
            r == self.deep_view().lossless_files.len() + self.deep_view().lossy_files.len(),
    {
        proof {
            assert(self.deep_view().lossless_files.len() == self.lossless_files.len());
            assert(self.deep_view().lossy_files.len() == self.lossy_files.len());
        }
        self.lossless_files.len() + self.lossy_files.len()
    }

    /// Whether there are lossless files.
    pub fn has_lossless(&self) -> (r: bool)
        ensures
            r == (self.deep_view().lossless_files.len() > 0),
    {
        self.lossless_files.len() > 0
    }

    /// Whether there are lossy files.
    pub fn has_lossy(&self) -> (r: bool)
        ensures
            r == (self.deep_view().lossy_files.len() > 0),
    {
        self.lossy_files.len() > 0
    }

    /// The lossless types with their counts, the commonest first.
    pub fn lossless_breakdown(&self) -> (r: Vec<(String, i64)>)
        ensures
            r.deep_view() == self.deep_view().lossless_types(),
    {
        let ghost s = self.file_counts.deep_view();
        let mut out: Vec<(String, i64)> = nothing();
        proof {
            lemma_chosen_start(s, counts_lossless());
        }
        let mut i: usize = 0;
        while i < self.file_counts.len()
            invariant
                i <= self.file_counts.len(),
                s == self.file_counts.deep_view(),
                out.deep_view() == chosen(s.take(i as int), counts_lossless()),
            decreases self.file_counts.len() - i,
        {
            let c: (String, i64) = (self.file_counts[i].0.clone(), self.file_counts[i].1);
            proof {
                lemma_chosen_step(s, i as int, counts_lossless());
                assert(c.deep_view() == s[i as int]);
            }
            if is_lossless_type(c.0.as_str()) {
                put(&mut out, c);
            }
            i = i + 1;
        }
        proof {
            assert(s.take(s.len() as int) =~= s);
        }
        sorted(out)
    }

    /// The lossy types with their counts, the commonest first.
    pub fn lossy_breakdown(&self) -> (r: Vec<(String, i64)>)
        ensures
            r.deep_view() == self.deep_view().lossy_types(),
    {
        let ghost s = self.file_counts.deep_view();
        let mut out: Vec<(String, i64)> = nothing();
        proof {
            lemma_chosen_start(s, counts_lossy());
        }
        let mut i: usize = 0;
        while i < self.file_counts.len()
            invariant
                i <= self.file_counts.len(),
                s == self.file_counts.deep_view(),
                out.deep_view() == chosen(s.take(i as int), counts_lossy()),
            decreases self.file_counts.len() - i,
        {
            let c: (String, i64) = (self.file_counts[i].0.clone(), self.file_counts[i].1);
            proof {
                lemma_chosen_step(s, i as int, counts_lossy());
                assert(c.deep_view() == s[i as int]);
            }
            if is_lossy_type(c.0.as_str()) {
                put(&mut out, c);
            }
            i = i + 1;
        }
        proof {
            assert(s.take(s.len() as int) =~= s);
        }
        sorted(out)
    }

    /// Changes the bitrate, between the lowest and the highest.
    pub fn adjust_bitrate(&mut self, delta: i32)
        requires
            can_change(old(self).deep_view().opus_bitrate_kbps, delta as int),
        ensures
            final(self).deep_view() == old(self).deep_view().with_change(delta as int),
            final(self).deep_view().in_bounds(),
    {
        self.opus_bitrate_kbps = adjusted(self.opus_bitrate_kbps, delta);
    }

    /// Lowers the bitrate by a step.
    pub fn decrease_bitrate(&mut self)
        requires
            can_change(old(self).deep_view().opus_bitrate_kbps, -BITRATE_STEP),
        ensures
            final(self).deep_view() == old(self).deep_view().with_change(-BITRATE_STEP),
            final(self).deep_view().in_bounds(),
    {
        self.adjust_bitrate(-(BITRATE_STEP as i32));
    }

    /// Raises the bitrate by a step.
    pub fn increase_bitrate(&mut self)
        requires
            can_change(old(self).deep_view().opus_bitrate_kbps, BITRATE_STEP as int),
        ensures
            final(self).deep_view() == old(self).deep_view().with_change(BITRATE_STEP as int),
            final(self).deep_view().in_bounds(),
    {
        self.adjust_bitrate(BITRATE_STEP as i32);
    }

    /// The mutations that bring the lossless files to FLAC.
    pub fn lossless_mutations(&self, root: &str) -> (r: Vec<Mutation>)
        ensures
            r.deep_view() == self.deep_view().lossless_changes(root@),
    {
        convert(&self.lossless_files, root, TranscodeTarget::Flac)
    }

    /// The mutations that convert the lossy files.
    pub fn lossy_mutations(&self, root: &str) -> (r: Vec<Mutation>)
        ensures
            r.deep_view() == self.deep_view().lossy_changes(root@),
    {
        let target: TranscodeTarget = if self.lossy_to_flac {
            TranscodeTarget::FlacLossyCapture
        } else {
            TranscodeTarget::Opus { bitrate_kbps: self.opus_bitrate_kbps }
        };
        convert(&self.lossy_files, root, target)
    }

    /// The mutations that convert all files, the lossless first.
    pub fn all_mutations(&self, root: &str) -> (r: Vec<Mutation>)
        ensures
            r.deep_view() == self.deep_view().lossless_changes(root@)
                + self.deep_view().lossy_changes(root@),
    {
        let mut mutations: Vec<Mutation> = self.lossless_mutations(root);
        put_all(&mut mutations, self.lossy_mutations(root));
        mutations
    }
}

/// The buttons, from left to right.
#[derive(Debug, Clone, Copy, PartialEq, Eq, Structural, Default)]
pub enum SelectedButton {
    /// The lossless files
    RemuxLossless,
    /// The lossy files
    TranscodeLossy,
    /// All files
    ConvertAll,
    #[default]
    Cancel,
}

impl SelectedButton {
    /// The button to the left.
    pub open spec fn before(self, has_lossless: bool, has_lossy: bool) -> Self {
        match self {
            SelectedButton::Cancel => if has_lossless && has_lossy {
                SelectedButton::ConvertAll
            } else if has_lossy {
                SelectedButton::TranscodeLossy
            } else if has_lossless {
                SelectedButton::RemuxLossless
            } else {
                SelectedButton::Cancel
            },
            SelectedButton::ConvertAll => SelectedButton::TranscodeLossy,
            SelectedButton::TranscodeLossy => if has_lossless {
                SelectedButton::RemuxLossless
            } else {
                SelectedButton::TranscodeLossy
            },
            SelectedButton::RemuxLossless => SelectedButton::RemuxLossless,
        }
    }

    /// The button to the right.
    pub open spec fn after(self, has_lossless: bool, has_lossy: bool) -> Self {
        match self {
            SelectedButton::RemuxLossless => if has_lossy {
                SelectedButton::TranscodeLossy
            } else {
                SelectedButton::Cancel
            },
            SelectedButton::TranscodeLossy => if has_lossless && has_lossy {
                SelectedButton::ConvertAll
            } else {
                SelectedButton::Cancel
            },
            _ => SelectedButton::Cancel,
        }
    }

    /// Goes to the left, over what there is something for.
    pub fn prev(&mut self, has_lossless: bool, has_lossy: bool)
        ensures
            *final(self) == old(self).before(has_lossless, has_lossy),
    {
        *self = match *self {
            SelectedButton::Cancel => if has_lossless && has_lossy {
                SelectedButton::ConvertAll
            } else if has_lossy {
                SelectedButton::TranscodeLossy
            } else if has_lossless {
                SelectedButton::RemuxLossless
            } else {
                SelectedButton::Cancel
            },
            SelectedButton::ConvertAll => SelectedButton::TranscodeLossy,
            SelectedButton::TranscodeLossy => if has_lossless {
                SelectedButton::RemuxLossless
            } else {
                SelectedButton::TranscodeLossy
            },
            SelectedButton::RemuxLossless => SelectedButton::RemuxLossless,
        };
    }

    /// Goes to the right, over what there is something for.
    pub fn next(&mut self, has_lossless: bool, has_lossy: bool)
        ensures
            *final(self) == old(self).after(has_lossless, has_lossy),
    {
        *self = match *self {
            SelectedButton::RemuxLossless => if has_lossy {
                SelectedButton::TranscodeLossy
            } else {
                SelectedButton::Cancel
            },
            SelectedButton::TranscodeLossy => if has_lossless && has_lossy {
                SelectedButton::ConvertAll
            } else {
                SelectedButton::Cancel
            },
            SelectedButton::ConvertAll => SelectedButton::Cancel,
            SelectedButton::Cancel => SelectedButton::Cancel,
        };
    }
}

/// Every file is converted once: there is a mutation for each.
pub proof fn law_one_mutation_a_file(d: DataModel, root: Seq<char>)
    ensures
        (d.lossless_changes(root) + d.lossy_changes(root)).len() == d.lossless_files.len()
            + d.lossy_files.len(),
{
}

/// No type is both lossless and lossy, so no file is converted twice.
pub proof fn law_lossless_or_lossy(t: Seq<char>)
    ensures
        !(lossless_format(t) && lossy_format(t)),
{
    reveal_strlit("wav");
    reveal_strlit("aiff");
    reveal_strlit("aif");
    reveal_strlit("ape");
    reveal_strlit("wv");
    reveal_strlit("mp3");
    reveal_strlit("m4a");
    reveal_strlit("aac");
    reveal_strlit("wma");
    if lossless_format(t) {
        assert(t[1] == 'v' || (t[0] == 'w' && t[1] == 'a') || (t[0] == 'a' && t[1] != 'a'));
    }
    if lossy_format(t) {
        assert((t[0] == 'm' || t[0] == 'a' || t[0] == 'w') && (t[1] == 'p' || t[1] == '4' || t[1]
            == 'a' || t[1] == 'm'));
        assert(t[0] == 'a' ==> t[1] == 'a');
        assert(t[0] == 'w' ==> t[1] == 'm');
    }
}

/// A button that a left or right leads to has something to do, or is the one
/// that cancels.
pub proof fn law_buttons_have_something_to_do(
    b: SelectedButton,
    has_lossless: bool,
    has_lossy: bool,
)
    requires
        b == SelectedButton::RemuxLossless ==> has_lossless,
        b == SelectedButton::TranscodeLossy ==> has_lossy,
        b == SelectedButton::ConvertAll ==> has_lossless && has_lossy,
    ensures
        ({
            let c = b.before(has_lossless, has_lossy);
            (c == SelectedButton::RemuxLossless ==> has_lossless) && (c
                == SelectedButton::TranscodeLossy ==> has_lossy) && (c
                == SelectedButton::ConvertAll ==> has_lossless && has_lossy)
        }),
        ({
            let c = b.after(has_lossless, has_lossy);
            (c == SelectedButton::RemuxLossless ==> has_lossless) && (c
                == SelectedButton::TranscodeLossy ==> has_lossy) && (c
                == SelectedButton::ConvertAll ==> has_lossless && has_lossy)
        }),
{
}

} // verus!
