//! What the interface knows of the music library: files, tracks, tags, and the
//! changes that can be asked for.

use vstd::prelude::*;

verus! {

/// A part of the archive that files live in.
#[derive(Debug, Clone, Copy, PartialEq, Eq, Structural)]
pub enum Zone {
    Corpus,
    Inbox,
    Library,
    Stash,
}

/// What the index says of a file.
#[derive(Debug)]
pub struct IndexEntry {
    pub path: String,
    pub inode: i64,
    pub zone: Zone,
    pub file_size: i64,
}

/// What the index says of the sound in a file.
#[derive(Debug)]
pub struct AudioInfo {
    pub file_type: String,
    pub duration_ms: Option<i64>,
    pub bitrate_kbps: Option<i32>,
    pub sample_rate: Option<i32>,
}

/// An indexed audio file.
#[derive(Debug)]
pub struct AudioFile {
    pub entry: IndexEntry,
    pub audio: AudioInfo,
}

/// The model of an [`AudioFile`].
pub struct AudioFileModel {
    pub path: Seq<char>,
    pub inode: i64,
    pub zone: Zone,
    pub file_size: i64,
    pub file_type: Seq<char>,
    pub duration_ms: Option<i64>,
    pub bitrate_kbps: Option<i32>,
    pub sample_rate: Option<i32>,
}

impl DeepView for AudioFile {
    type V = AudioFileModel;

    open spec fn deep_view(&self) -> AudioFileModel {
        AudioFileModel {
            path: self.entry.path@,
            inode: self.entry.inode,
            zone: self.entry.zone,
            file_size: self.entry.file_size,
            file_type: self.audio.file_type@,
            duration_ms: self.audio.duration_ms,
            bitrate_kbps: self.audio.bitrate_kbps,
            sample_rate: self.audio.sample_rate,
        }
    }
}

impl Clone for AudioFile {
    fn clone(&self) -> (r: Self)
        ensures
            r.deep_view() == self.deep_view(),
    {
        AudioFile {
            entry: IndexEntry {
                path: self.entry.path.clone(),
                inode: self.entry.inode,
                zone: self.entry.zone,
                file_size: self.entry.file_size,
            },
            audio: AudioInfo {
                file_type: self.audio.file_type.clone(),
                duration_ms: self.audio.duration_ms,
                bitrate_kbps: self.audio.bitrate_kbps,
                sample_rate: self.audio.sample_rate,
            },
        }
    }
}

impl AudioFile {
    /// The path of the file below the archive root.
    pub fn path(&self) -> (r: &str)
        ensures
            r@ == self.deep_view().path,
    {
        self.entry.path.as_str()
    }

    /// The inode of the file.
    pub fn inode(&self) -> (r: i64)
        ensures
            r == self.deep_view().inode,
    {
        self.entry.inode
    }
}

/// A change to one value of one tag of one file. A value that is absent before
/// is added, one that is absent after is dropped, and with both the first is
/// replaced by the second.
#[derive(Debug)]
pub struct TagOp {
    pub inode: i64,
    pub tag_name: String,
    pub old_value: Option<String>,
    pub new_value: Option<String>,
}

/// The model of a [`TagOp`].
pub struct TagOpModel {
    pub inode: i64,
    pub tag_name: Seq<char>,
    pub old_value: Option<Seq<char>>,
    pub new_value: Option<Seq<char>>,
}

impl DeepView for TagOp {
    type V = TagOpModel;

    open spec fn deep_view(&self) -> TagOpModel {
        TagOpModel {
            inode: self.inode,
            tag_name: self.tag_name@,
            old_value: self.old_value.deep_view(),
            new_value: self.new_value.deep_view(),
        }
    }
}

/// A copy of a string that may be absent.
pub fn copy_text(o: &Option<String>) -> (r: Option<String>)
    ensures
        r.deep_view() == o.deep_view(),
        r == *o,
{
    match o {
        Some(s) => Some(s.clone()),
        None => None,
    }
}

/// Whether two strings that may be absent are the same.
pub fn same_text(a: &Option<String>, b: &Option<String>) -> (r: bool)
    ensures
        r == (a.deep_view() == b.deep_view()),
{
    match (a, b) {
        (Some(x), Some(y)) => *x == *y,
        (None, None) => true,
        _ => false,
    }
}

impl Clone for TagOp {
    fn clone(&self) -> (r: Self)
        ensures
            r.deep_view() == self.deep_view(),
    {
        TagOp {
            inode: self.inode,
            tag_name: self.tag_name.clone(),
            old_value: copy_text(&self.old_value),
            new_value: copy_text(&self.new_value),
        }
    }
}

/// The adding of a value.
pub open spec fn adding(inode: i64, tag_name: Seq<char>, value: Seq<char>) -> TagOpModel {
    TagOpModel { inode, tag_name, old_value: None, new_value: Some(value) }
}

/// The dropping of a value.
pub open spec fn dropping(inode: i64, tag_name: Seq<char>, value: Seq<char>) -> TagOpModel {
    TagOpModel { inode, tag_name, old_value: Some(value), new_value: None }
}

/// The replacing of a value.
pub open spec fn replacing(
    inode: i64,
    tag_name: Seq<char>,
    old_value: Seq<char>,
    new_value: Seq<char>,
) -> TagOpModel {
    TagOpModel { inode, tag_name, old_value: Some(old_value), new_value: Some(new_value) }
}

impl TagOp {
    /// Adds a value.
    pub fn add_tag(inode: i64, tag_name: &str, value: &str) -> (r: TagOp)
        ensures
            r.deep_view() == adding(inode, tag_name@, value@),
    {
        TagOp {
            inode,
            tag_name: tag_name.to_owned(),
            old_value: None,
            new_value: Some(value.to_owned()),
        }
    }

    /// Drops a value.
    pub fn drop_tag(inode: i64, tag_name: &str, value: &str) -> (r: TagOp)
        ensures
            r.deep_view() == dropping(inode, tag_name@, value@),
    {
        TagOp {
            inode,
            tag_name: tag_name.to_owned(),
            old_value: Some(value.to_owned()),
            new_value: None,
        }
    }

    /// Replaces one value by another.
    pub fn replace_tag(inode: i64, tag_name: &str, old_value: &str, new_value: &str) -> (r: TagOp)
        ensures
            r.deep_view() == replacing(inode, tag_name@, old_value@, new_value@),
    {
        TagOp {
            inode,
            tag_name: tag_name.to_owned(),
            old_value: Some(old_value.to_owned()),
            new_value: Some(new_value.to_owned()),
        }
    }

    /// Whether two changes are the same.
    pub fn same(&self, other: &TagOp) -> (r: bool)
        ensures
            r == (self.deep_view() == other.deep_view()),
    {
        self.inode == other.inode && self.tag_name == other.tag_name && same_text(
            &self.old_value,
            &other.old_value,
        ) && same_text(&self.new_value, &other.new_value)
    }
}

/// What a file is transcoded to.
#[derive(Debug, Clone, Copy, PartialEq, Eq, Structural)]
pub enum TranscodeTarget {
    /// FLAC, without loss
    Flac,
    /// FLAC that captures the wave form of a lossy file
    FlacLossyCapture,
    /// Opus at a bitrate
    Opus { bitrate_kbps: u32 },
}

/// A change to the library that the operator can ask for.
#[derive(Debug)]
pub enum Mutation {
    /// Change tag values in the index and on disk
    ApplyTagOps { ops: Vec<TagOp> },
    /// Set all the tags that the index holds of a track
    SetTrackTagsDb { track_id: i64, tags: Vec<(String, String)> },
    /// Write the tags that the index holds of a track to its file
    FlushTagsToDisk { track_id: i64, path: String },
    /// Move a file into a stash
    MoveToStash { path: String, stash_name: String },
    /// Remove a file from the index
    DropFromIndex {
        track_id: Option<i64>,
        path: String,
        inode: Option<i64>,
        source: Option<String>,
    },
    /// Convert a file and stash the original. The subject is a track or an inode.
    Transcode {
        subject: i64,
        source_path: String,
        target_format: TranscodeTarget,
        stash_name: String,
    },
}

/// The model of a [`Mutation`].
pub enum MutationModel {
    ApplyTagOps { ops: Seq<TagOpModel> },
    SetTrackTagsDb { track_id: i64, tags: Seq<(Seq<char>, Seq<char>)> },
    FlushTagsToDisk { track_id: i64, path: Seq<char> },
    MoveToStash { path: Seq<char>, stash_name: Seq<char> },
    DropFromIndex {
        track_id: Option<i64>,
        path: Seq<char>,
        inode: Option<i64>,
        source: Option<Seq<char>>,
    },
    Transcode {
        subject: i64,
        source_path: Seq<char>,
        target_format: TranscodeTarget,
        stash_name: Seq<char>,
    },
}

impl DeepView for Mutation {
    type V = MutationModel;

    open spec fn deep_view(&self) -> MutationModel {
        match self {
            Mutation::ApplyTagOps { ops } => MutationModel::ApplyTagOps { ops: ops.deep_view() },
            Mutation::SetTrackTagsDb { track_id, tags } => MutationModel::SetTrackTagsDb {
                track_id: *track_id,
                tags: tags.deep_view(),
            },
            Mutation::FlushTagsToDisk { track_id, path } => MutationModel::FlushTagsToDisk {
                track_id: *track_id,
                path: path@,
            },
            Mutation::MoveToStash { path, stash_name } => MutationModel::MoveToStash {
                path: path@,
                stash_name: stash_name@,
            },
            Mutation::DropFromIndex { track_id, path, inode, source } => MutationModel::DropFromIndex {
                track_id: *track_id,
                path: path@,
                inode: *inode,
                source: source.deep_view(),
            },
            Mutation::Transcode { subject, source_path, target_format, stash_name } => MutationModel::Transcode {
                subject: *subject,
                source_path: source_path@,
                target_format: *target_format,
                stash_name: stash_name@,
            },
        }
    }
}

/// A copy of some tags.
pub fn copy_tags(tags: &Vec<(String, String)>) -> (r: Vec<(String, String)>)
    ensures
        r.deep_view() == tags.deep_view(),
{
    let mut out: Vec<(String, String)> = Vec::new();
    for i in 0..tags.len()
        invariant
            out.len() == i,
            forall|j: int| 0 <= j < i ==> (#[trigger] out[j]).deep_view() == tags[j].deep_view(),
    {
        out.push((tags[i].0.clone(), tags[i].1.clone()));
    }
    proof {
        assert(out.deep_view() =~= tags.deep_view());
    }
    out
}

/// Whether two lists of tags are the same.
pub fn same_tags(a: &Vec<(String, String)>, b: &Vec<(String, String)>) -> (r: bool)
    ensures
        r == (a.deep_view() == b.deep_view()),
{
    if a.len() != b.len() {
        proof {
            assert(a.deep_view().len() != b.deep_view().len());
        }
        return false;
    }
    let mut i: usize = 0;
    while i < a.len()
        invariant
            a.len() == b.len(),
            i <= a.len(),
            forall|j: int| 0 <= j < i ==> (#[trigger] a.deep_view()[j]) == b.deep_view()[j],
        decreases a.len() - i,
    {
        if !(a[i].0 == b[i].0 && a[i].1 == b[i].1) {
            proof {
                assert(a.deep_view()[i as int] != b.deep_view()[i as int]);
            }
            return false;
        }
        i = i + 1;
    }
    proof {
        assert(a.deep_view() =~= b.deep_view());
    }
    true
}

/// A copy of some tag changes.
pub fn copy_ops(ops: &Vec<TagOp>) -> (r: Vec<TagOp>)
    ensures
        r.deep_view() == ops.deep_view(),
{
    let r: Vec<TagOp> = ops.clone();
    proof {
        assert(r.deep_view() =~= ops.deep_view());
    }
    r
}

/// Whether two lists of tag changes are the same.
pub fn same_ops(a: &Vec<TagOp>, b: &Vec<TagOp>) -> (r: bool)
    ensures
        r == (a.deep_view() == b.deep_view()),
{
    if a.len() != b.len() {
        proof {
            assert(a.deep_view().len() != b.deep_view().len());
        }
        return false;
    }
    let mut i: usize = 0;
    while i < a.len()
        invariant
            a.len() == b.len(),
            i <= a.len(),
            forall|j: int| 0 <= j < i ==> (#[trigger] a.deep_view()[j]) == b.deep_view()[j],
        decreases a.len() - i,
    {
        if !a[i].same(&b[i]) {
            proof {
                assert(a.deep_view()[i as int] != b.deep_view()[i as int]);
            }
            return false;
        }
        i = i + 1;
    }
    proof {
        assert(a.deep_view() =~= b.deep_view());
    }
    true
}

impl Clone for Mutation {
    fn clone(&self) -> (r: Self)
        ensures
            r.deep_view() == self.deep_view(),
    {
        match self {
            Mutation::ApplyTagOps { ops } => Mutation::ApplyTagOps { ops: copy_ops(ops) },
            Mutation::SetTrackTagsDb { track_id, tags } => Mutation::SetTrackTagsDb {
                track_id: *track_id,
                tags: copy_tags(tags),
            },
            Mutation::FlushTagsToDisk { track_id, path } => Mutation::FlushTagsToDisk {
                track_id: *track_id,
                path: path.clone(),
            },
            Mutation::MoveToStash { path, stash_name } => Mutation::MoveToStash {
                path: path.clone(),
                stash_name: stash_name.clone(),
            },
            Mutation::DropFromIndex { track_id, path, inode, source } => Mutation::DropFromIndex {
                track_id: *track_id,
                path: path.clone(),
                inode: *inode,
                source: copy_text(source),
            },
            Mutation::Transcode { subject, source_path, target_format, stash_name } => Mutation::Transcode {
                subject: *subject,
                source_path: source_path.clone(),
                target_format: *target_format,
                stash_name: stash_name.clone(),
            },
        }
    }
}

fn same_inode(a: Option<i64>, b: Option<i64>) -> (r: bool)
    ensures
        r == (a == b),
{
    match (a, b) {
        (Some(x), Some(y)) => x == y,
        (None, None) => true,
        _ => false,
    }
}

impl Mutation {
    /// Whether two changes are the same.
    pub fn same(&self, other: &Mutation) -> (r: bool)
        ensures
            r == (self.deep_view() == other.deep_view()),
    {
        match (self, other) {
            (Mutation::ApplyTagOps { ops: a }, Mutation::ApplyTagOps { ops: b }) => same_ops(a, b),
            (
                Mutation::SetTrackTagsDb { track_id: i, tags: a },
                Mutation::SetTrackTagsDb { track_id: j, tags: b },
            ) => *i == *j && same_tags(a, b),
            (
                Mutation::FlushTagsToDisk { track_id: i, path: p },
                Mutation::FlushTagsToDisk { track_id: j, path: q },
            ) => *i == *j && *p == *q,
            (
                Mutation::MoveToStash { path: p, stash_name: s },
                Mutation::MoveToStash { path: q, stash_name: t },
            ) => *p == *q && *s == *t,
            (
                Mutation::DropFromIndex { track_id: i, path: p, inode: m, source: s },
                Mutation::DropFromIndex { track_id: j, path: q, inode: n, source: t },
            ) => *i == *j && *p == *q && same_inode(*m, *n) && same_text(s, t),
            (
                Mutation::Transcode { subject: i, source_path: p, target_format: m, stash_name: s },
                Mutation::Transcode { subject: j, source_path: q, target_format: n, stash_name: t },
            ) => *i == *j && *p == *q && *m == *n && *s == *t,
            _ => false,
        }
    }
}

/// A copy of some changes.
pub fn copy_mutations(v: &Vec<Mutation>) -> (r: Vec<Mutation>)
    ensures
        r.deep_view() == v.deep_view(),
{
    let r: Vec<Mutation> = v.clone();
    proof {
        assert(r.deep_view() =~= v.deep_view());
    }
    r
}

/// Whether two lists of changes are the same.
pub fn same_mutations(a: &Vec<Mutation>, b: &Vec<Mutation>) -> (r: bool)
    ensures
        r == (a.deep_view() == b.deep_view()),
{
    if a.len() != b.len() {
        proof {
            assert(a.deep_view().len() != b.deep_view().len());
        }
        return false;
    }
    let mut i: usize = 0;
    while i < a.len()
        invariant
            a.len() == b.len(),
            i <= a.len(),
            forall|j: int| 0 <= j < i ==> (#[trigger] a.deep_view()[j]) == b.deep_view()[j],
        decreases a.len() - i,
    {
        if !a[i].same(&b[i]) {
            proof {
                assert(a.deep_view()[i as int] != b.deep_view()[i as int]);
            }
            return false;
        }
        i = i + 1;
    }
    proof {
        assert(a.deep_view() =~= b.deep_view());
    }
    true
}

/// A track as the index holds it.
#[derive(Debug)]
pub struct Track {
    pub id: Option<i64>,
    pub path: String,
    pub source: String,
    pub inode: i64,
    pub file_size: i64,
    pub file_type: String,
    pub artist: Option<String>,
    pub album: Option<String>,
    pub album_artist: Option<String>,
    pub title: Option<String>,
    pub track_number: Option<i32>,
    pub genre: Option<String>,
    pub duration_ms: Option<i64>,
    pub bitrate_kbps: Option<i32>,
    pub sample_rate: Option<i32>,
    pub fingerprint: Option<String>,
    pub isrc: Option<String>,
}

/// The model of a [`Track`].
pub struct TrackModel {
    pub id: Option<i64>,
    pub path: Seq<char>,
    pub source: Seq<char>,
    pub inode: i64,
    pub file_size: i64,
    pub file_type: Seq<char>,
    pub artist: Option<Seq<char>>,
    pub album: Option<Seq<char>>,
    pub album_artist: Option<Seq<char>>,
    pub title: Option<Seq<char>>,
    pub track_number: Option<i32>,
    pub genre: Option<Seq<char>>,
    pub duration_ms: Option<i64>,
    pub bitrate_kbps: Option<i32>,
    pub sample_rate: Option<i32>,
    pub fingerprint: Option<Seq<char>>,
    pub isrc: Option<Seq<char>>,
}

impl DeepView for Track {
    type V = TrackModel;

    open spec fn deep_view(&self) -> TrackModel {
        TrackModel {
            id: self.id,
            path: self.path@,
            source: self.source@,
            inode: self.inode,
            file_size: self.file_size,
            file_type: self.file_type@,
            artist: self.artist.deep_view(),
            album: self.album.deep_view(),
            album_artist: self.album_artist.deep_view(),
            title: self.title.deep_view(),
            track_number: self.track_number,
            genre: self.genre.deep_view(),
            duration_ms: self.duration_ms,
            bitrate_kbps: self.bitrate_kbps,
            sample_rate: self.sample_rate,
            fingerprint: self.fingerprint.deep_view(),
            isrc: self.isrc.deep_view(),
        }
    }
}

impl Clone for Track {
    fn clone(&self) -> (r: Self)
        ensures
            r.deep_view() == self.deep_view(),
    {
        Track {
            id: self.id,
            path: self.path.clone(),
            source: self.source.clone(),
            inode: self.inode,
            file_size: self.file_size,
            file_type: self.file_type.clone(),
            artist: copy_text(&self.artist),
            album: copy_text(&self.album),
            album_artist: copy_text(&self.album_artist),
            title: copy_text(&self.title),
            track_number: self.track_number,
            genre: copy_text(&self.genre),
            duration_ms: self.duration_ms,
            bitrate_kbps: self.bitrate_kbps,
            sample_rate: self.sample_rate,
            fingerprint: copy_text(&self.fingerprint),
            isrc: copy_text(&self.isrc),
        }
    }
}

/// Where a decision comes from.
#[derive(Debug, Clone, Copy, PartialEq, Eq, Structural)]
pub enum DecisionSource {
    TagEdit,
    TagCanonicity,
    AlbumArtist,
    OobSync,
    ReleasePacking,
}

/// The key under which a decision is staged. Staging under the same key again
/// replaces the decision.
#[derive(Debug)]
pub struct DecisionKey {
    pub source: DecisionSource,
    pub item: String,
}

/// The model of a [`DecisionKey`].
pub struct DecisionKeyModel {
    pub source: DecisionSource,
    pub item: Seq<char>,
}

impl DeepView for DecisionKey {
    type V = DecisionKeyModel;

    open spec fn deep_view(&self) -> DecisionKeyModel {
        DecisionKeyModel { source: self.source, item: self.item@ }
    }
}

impl Clone for DecisionKey {
    fn clone(&self) -> (r: Self)
        ensures
            r.deep_view() == self.deep_view(),
    {
        DecisionKey { source: self.source, item: self.item.clone() }
    }
}

impl DecisionKey {
    /// The key of an item under a source.
    pub fn new(source: DecisionSource, item: String) -> (r: DecisionKey)
        ensures
            r.deep_view() == (DecisionKeyModel { source, item: item@ }),
    {
        DecisionKey { source, item }
    }

    /// Whether two keys are the same.
    pub fn same(&self, other: &DecisionKey) -> (r: bool)
        ensures
            r == (self.deep_view() == other.deep_view()),
    {
        self.source == other.source && self.item == other.item
    }
}

} // verus!
