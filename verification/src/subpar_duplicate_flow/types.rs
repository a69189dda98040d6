//! The files that are worse than a duplicate, and the mutations that stash them.

use vstd::prelude::*;

use crate::corpus::{Mutation, MutationModel};
use crate::lists::{lemma_picked_start, lemma_picked_step, picked};
use crate::paths;
use crate::screen::{nothing, put};
use crate::subpar_duplicate_flow::laws::{law_rows_with_tracks_are_listed, made_of};
use crate::text;

verus! {

/// A file that is worse than a duplicate of it.
#[derive(Debug)]
pub struct SubparFileEntry {
    /// The path in the corpus
    pub corpus_path: String,
    /// The number of the track
    pub track_id: i64,
    /// The inode
    pub inode: i64,
    /// Why it is worse
    pub reason: String,
    /// The path of the better one
    pub superior_path: String,
}

/// The model of a [`SubparFileEntry`].
pub struct SubparModel {
    pub corpus_path: Seq<char>,
    pub track_id: i64,
    pub inode: i64,
    pub reason: Seq<char>,
    pub superior_path: Seq<char>,
}

impl DeepView for SubparFileEntry {
    type V = SubparModel;

    open spec fn deep_view(&self) -> SubparModel {
        SubparModel {
            corpus_path: self.corpus_path@,
            track_id: self.track_id,
            inode: self.inode,
            reason: self.reason@,
            superior_path: self.superior_path@,
        }
    }
}

/// The number and the inode of a track.
#[derive(Debug, Clone, Copy, PartialEq, Eq, Structural)]
pub struct TrackKey {
    pub id: Option<i64>,
    pub inode: i64,
}

/// A signal on a worse file, with the track at its path, if there is one.
#[derive(Debug)]
pub struct SubparRow {
    pub corpus_path: String,
    pub reason: String,
    pub superior_path: String,
    pub track: Option<TrackKey>,
}

/// The model of a [`SubparRow`].
pub struct SubparRowModel {
    pub corpus_path: Seq<char>,
    pub reason: Seq<char>,
    pub superior_path: Seq<char>,
    pub track: Option<TrackKey>,
}

impl DeepView for SubparRow {
    type V = SubparRowModel;

    open spec fn deep_view(&self) -> SubparRowModel {
        SubparRowModel {
            corpus_path: self.corpus_path@,
            reason: self.reason@,
            superior_path: self.superior_path@,
            track: self.track,
        }
    }
}

/// The condition of there being a track.
pub open spec fn has_track() -> spec_fn(SubparRowModel) -> bool {
    |row: SubparRowModel| row.track is Some
}

/// A reason in words.
pub open spec fn plain_reason(reason: Seq<char>) -> Seq<char> {
    if reason == "SubparBitrate"@ {
        "Lower bitrate"@
    } else if reason == "SubparFormat"@ {
        "Worse format"@
    } else {
        reason
    }
}

/// The file of a signal.
pub open spec fn subpar_entry() -> spec_fn(SubparRowModel) -> SubparModel {
    |row: SubparRowModel|
        SubparModel {
            corpus_path: row.corpus_path,
            track_id: match row.track->0.id {
                Some(id) => id,
                None => 0,
            },
            inode: row.track->0.inode,
            reason: plain_reason(row.reason),
            superior_path: row.superior_path,
        }
}

/// The worse files.
#[derive(Debug)]
pub struct SubparDuplicateModalData {
    /// The files
    pub files: Vec<SubparFileEntry>,
}

impl DeepView for SubparDuplicateModalData {
    type V = Seq<SubparModel>;

    open spec fn deep_view(&self) -> Seq<SubparModel> {
        self.files.deep_view()
    }
}

/// The two mutations of a file: it goes to the stash, then out of the index.
pub open spec fn stash_and_drop(
    root: Seq<char>,
    corpus_path: Seq<char>,
    track_id: Option<i64>,
    inode: i64,
) -> Seq<MutationModel> {
    crate::screen::list2(
        MutationModel::MoveToStash {
            path: paths::under(root, corpus_path),
            stash_name: "subpar"@,
        },
        MutationModel::DropFromIndex {
            track_id,
            path: corpus_path,
            inode: Some(inode),
            source: Some("corpus"@),
        },
    )
}

/// The mutations of files, file after file.
pub open spec fn stash_all(files: Seq<SubparModel>, root: Seq<char>) -> Seq<MutationModel>
    decreases files.len(),
{
    if files.len() == 0 {
        Seq::empty()
    } else {
        stash_all(files.drop_last(), root) + stash_and_drop(
            root,
            files.last().corpus_path,
            Some(files.last().track_id),
            files.last().inode,
        )
    }
}

impl Default for SubparDuplicateModalData {
    /// No files.
    fn default() -> (r: Self)
        ensures
            r.deep_view() == Seq::<SubparModel>::empty(),
    {
        SubparDuplicateModalData { files: nothing() }
    }
}

impl SubparDuplicateModalData {
    /// The files of the signals. A signal without a track is passed over.
    pub fn load(rows: Vec<SubparRow>) -> (r: Self)
        ensures
            r.deep_view() == picked(rows.deep_view(), has_track(), subpar_entry()),
            forall|f: SubparModel| #[trigger]
                r.deep_view().contains(f) <==> exists|i: int|
                    0 <= i < rows.deep_view().len() && made_of(f, #[trigger] rows.deep_view()[i]),
    {
        let ghost s = rows.deep_view();
        let mut files: Vec<SubparFileEntry> = nothing();
        proof {
            lemma_picked_start(s, has_track(), subpar_entry());
        }
        let mut i: usize = 0;
        while i < rows.len()
            invariant
                i <= rows.len(),
                s == rows.deep_view(),
                files.deep_view() == picked(s.take(i as int), has_track(), subpar_entry()),
            decreases rows.len() - i,
        {
            proof {
                lemma_picked_step(s, i as int, has_track(), subpar_entry());
            }
            if let Some(track) = rows[i].track {
                let reason: &str = rows[i].reason.as_str();
                let words: &str = if text::same(reason, "SubparBitrate") {
                    "Lower bitrate"
                } else if text::same(reason, "SubparFormat") {
                    "Worse format"
                } else {
                    reason
                };
                let entry: SubparFileEntry = SubparFileEntry {
                    corpus_path: rows[i].corpus_path.clone(),
                    track_id: match track.id {
                        Some(id) => id,
                        None => 0,
                    },
                    inode: track.inode,
                    reason: words.to_owned(),
                    superior_path: rows[i].superior_path.clone(),
                };
                proof {
                    assert(entry.deep_view() == subpar_entry()(s[i as int]));
                }
                put(&mut files, entry);
            }
            i = i + 1;
        }
        proof {
            assert(s.take(s.len() as int) =~= s);
            assert forall|f: SubparModel| #[trigger] files.deep_view().contains(f)
                <==> exists|i: int| 0 <= i < s.len() && made_of(f, #[trigger] s[i]) by {
                law_rows_with_tracks_are_listed(s, f);
            }
        }
        SubparDuplicateModalData { files }
    }

    /// How many files there are.
    pub fn total_count(&self) -> (r: usize)
        ensures
            r == self.deep_view().len(),
    {
        self.files.len()
    }

    /// Whether there are files.
    pub fn has_files(&self) -> (r: bool)
        ensures
            r == (self.deep_view().len() > 0),
    {
        self.files.len() > 0
    }

    /// The mutations that stash all files and drop them from the index.
    pub fn stash_and_drop_mutations(&self, root: &str) -> (r: Vec<Mutation>)
        ensures
            r.deep_view() == stash_all(self.deep_view(), root@),
    {
        let ghost s = self.files.deep_view();
        let mut out: Vec<Mutation> = nothing();
        proof {
            assert(s.take(0) =~= Seq::<SubparModel>::empty());
        }
        let mut i: usize = 0;
        while i < self.files.len()
            invariant
                i <= self.files.len(),
                s == self.files.deep_view(),
                out.deep_view() == stash_all(s.take(i as int), root@),
            decreases self.files.len() - i,
        {
            let f: &SubparFileEntry = &self.files[i];
            let ghost before = out.deep_view();
            proof {
                assert(s.take(i as int + 1).drop_last() =~= s.take(i as int));
                assert(s.take(i as int + 1).last() == f.deep_view());
            }
            put(
                &mut out,
                Mutation::MoveToStash {
                    path: paths::resolve(root, f.corpus_path.as_str()),
                    stash_name: "subpar".to_owned(),
                },
            );
            put(
                &mut out,
                Mutation::DropFromIndex {
                    track_id: Some(f.track_id),
                    path: f.corpus_path.clone(),
                    inode: Some(f.inode),
                    source: Some("corpus".to_owned()),
                },
            );
            proof {
                assert(out.deep_view() =~= before + stash_and_drop(
                    root@,
                    f.corpus_path@,
                    Some(f.track_id),
                    f.inode,
                ));
            }
            i = i + 1;
        }
        proof {
            assert(s.take(s.len() as int) =~= s);
        }
        out
    }
}

/// The buttons.
#[derive(Debug, Clone, Copy, PartialEq, Eq, Structural, Default)]
pub enum SelectedButton {
    StashAll,
    #[default]
    Cancel,
}

impl SelectedButton {
    /// Goes to the left, where there is something to stash.
    pub fn left(&mut self, has_files: bool)
        ensures
            *final(self) == (if has_files {
                SelectedButton::StashAll
            } else {
                *old(self)
            }),
    {
        if *self == SelectedButton::Cancel && has_files {
            *self = SelectedButton::StashAll;
        }
    }

    /// Goes to the right.
    pub fn right(&mut self, _has_files: bool)
        ensures
            *final(self) == SelectedButton::Cancel,
    {
        *self = SelectedButton::Cancel;
    }
}

/// The mutations come in pairs, in the order of the files: each file goes to the
/// stash first, then out of the index.
pub proof fn law_stash_before_drop(files: Seq<SubparModel>, root: Seq<char>)
    ensures
        stash_all(files, root).len() == 2 * files.len(),
        forall|i: int|
            0 <= i < files.len() ==> #[trigger] stash_all(files, root)[2 * i]
                == (MutationModel::MoveToStash {
                path: paths::under(root, files[i].corpus_path),
                stash_name: "subpar"@,
            }),
        forall|i: int|
            0 <= i < files.len() ==> #[trigger] stash_all(files, root)[2 * i + 1]
                == (MutationModel::DropFromIndex {
                track_id: Some(files[i].track_id),
                path: files[i].corpus_path,
                inode: Some(files[i].inode),
                source: Some("corpus"@),
            }),
    decreases files.len(),
{
    if files.len() > 0 {
        let init = files.drop_last();
        law_stash_before_drop(init, root);
        let before = stash_all(init, root);
        let all = stash_all(files, root);
        assert forall|i: int| 0 <= i < files.len() implies #[trigger] all[2 * i]
            == (MutationModel::MoveToStash {
            path: paths::under(root, files[i].corpus_path),
            stash_name: "subpar"@,
        }) by {
            if i < init.len() {
                assert(all[2 * i] == before[2 * i]);
                assert(init[i] == files[i]);
            }
        }
        assert forall|i: int| 0 <= i < files.len() implies #[trigger] all[2 * i + 1]
            == (MutationModel::DropFromIndex {
            track_id: Some(files[i].track_id),
            path: files[i].corpus_path,
            inode: Some(files[i].inode),
            source: Some("corpus"@),
        }) by {
            if i < init.len() {
                assert(all[2 * i + 1] == before[2 * i + 1]);
                assert(init[i] == files[i]);
            }
        }
    }
}

} // verus!
