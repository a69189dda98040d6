//! The variants, the files, and what is decided about them.

use std::collections::HashSet;

use vstd::prelude::*;

use crate::corpus::{adding, dropping, replacing, Mutation, MutationModel, TagOp, TagOpModel};
use crate::lists::chosen;
use crate::ordering::{in_order, sorted, Ranked};
use crate::paths;
use crate::screen::{nothing, put, put_all};
use crate::tag_canonicity::data::{first_value, most_common, rank_variants, ranked, TagVariantEntry, VariantModel};
use crate::tag_canonicity::squash::{going, goes, selected_values, tag_values, values_at, values_of};
use crate::text::{self, text_before, trimmed};
use crate::text_input::{TextInputModel, TextInputState};
use crate::widgets::{all_below, first_places, toggle, toggled};

verus! {

/// A file with its tags.
#[derive(Debug)]
pub struct FileTagInfo {
    /// The inode
    pub inode: i64,
    /// The name
    pub filename: String,
    /// The path in the corpus
    pub path: String,
    /// The tags; none where they could not be read
    pub tag_values: Vec<(String, String)>,
    /// Whether the tags could be read
    pub readable: bool,
}

/// The model of a [`FileTagInfo`].
pub struct FileTagModel {
    pub inode: i64,
    pub filename: Seq<char>,
    pub path: Seq<char>,
    pub tag_values: Seq<(Seq<char>, Seq<char>)>,
    pub readable: bool,
}

impl DeepView for FileTagInfo {
    type V = FileTagModel;

    open spec fn deep_view(&self) -> FileTagModel {
        FileTagModel {
            inode: self.inode,
            filename: self.filename@,
            path: self.path@,
            tag_values: self.tag_values.deep_view(),
            readable: self.readable,
        }
    }
}

/// Files stand in the order of their names.
impl Ranked for FileTagInfo {
    open spec fn precedes(a: FileTagModel, b: FileTagModel) -> bool {
        text_before(a.filename, b.filename)
    }

    fn before(&self, other: &Self) -> (r: bool) {
        text::comes_before(self.filename.as_str(), other.filename.as_str())
    }
}

/// Whether one file comes before another.
pub open spec fn by_filename() -> spec_fn(FileTagModel, FileTagModel) -> bool {
    |a: FileTagModel, b: FileTagModel| FileTagInfo::precedes(a, b)
}

/// A file as it was found in the index, with the tags that were read from it,
/// where they could be.
#[derive(Debug)]
pub struct LoadedFile {
    pub inode: i64,
    pub path: String,
    pub tags: Option<Vec<(String, String)>>,
}

/// The model of a [`LoadedFile`].
pub struct LoadedModel {
    pub inode: i64,
    pub path: Seq<char>,
    pub tags: Option<Seq<(Seq<char>, Seq<char>)>>,
}

impl DeepView for LoadedFile {
    type V = LoadedModel;

    open spec fn deep_view(&self) -> LoadedModel {
        LoadedModel { inode: self.inode, path: self.path@, tags: self.tags.deep_view() }
    }
}

/// A file under its name. Where its tags could not be read, it shows none.
pub open spec fn named() -> spec_fn(LoadedModel) -> FileTagModel {
    |f: LoadedModel|
        FileTagModel {
            inode: f.inode,
            filename: match paths::name_in(f.path) {
                Some(name) => name,
                None => f.path,
            },
            path: f.path,
            tag_values: match f.tags {
                Some(tags) => tags,
                None => Seq::empty(),
            },
            readable: f.tags is Some,
        }
}

/// Files in the order of their names.
pub open spec fn file_list(files: Seq<LoadedModel>) -> Seq<FileTagModel> {
    in_order(files.map_values(named()), by_filename())
}

/// Files in the order of their names.
pub fn load_file_info(files: Vec<LoadedFile>) -> (r: Vec<FileTagInfo>)
    ensures
        r.deep_view() == file_list(files.deep_view()),
{
    let ghost s = files.deep_view();
    let mut out: Vec<FileTagInfo> = nothing();
    let mut i: usize = 0;
    while i < files.len()
        invariant
            i <= files.len(),
            s == files.deep_view(),
            out.len() == i,
            forall|k: int| 0 <= k < i ==> (#[trigger] out[k]).deep_view() == named()(s[k]),
        decreases files.len() - i,
    {
        let f: &LoadedFile = &files[i];
        let info: FileTagInfo = FileTagInfo {
            inode: f.inode,
            filename: paths::name_or(f.path.as_str(), f.path.as_str()),
            path: f.path.clone(),
            tag_values: match &f.tags {
                Some(tags) => crate::corpus::copy_tags(tags),
                None => nothing(),
            },
            readable: f.tags.is_some(),
        };
        proof {
            assert(info.deep_view() == named()(s[i as int]));
        }
        out.push(info);
        i = i + 1;
    }
    proof {
        assert(out.deep_view() =~= s.map_values(named()));
    }
    sorted(out)
}

/// A tag with several spellings.
#[derive(Debug)]
pub struct TagCanonicitySignal {
    pub tag_name: String,
    pub variants: Vec<(String, usize)>,
    pub inodes: Vec<i64>,
}

/// An album whose tracks name different album artists.
#[derive(Debug)]
pub struct InconsistentAlbumArtistSignal {
    pub album: String,
    pub album_artist_variants: Vec<(String, usize)>,
    pub inodes: Vec<i64>,
}

/// What the modal works on.
#[derive(Debug)]
pub struct TagCanonicalityModalDataV2 {
    /// The tag
    pub tag_name: String,
    /// What the files have in common
    pub context_label: Option<String>,
    /// The variants, the commonest first
    pub variants: Vec<TagVariantEntry>,
    /// The files concerned
    pub inodes: Vec<i64>,
    /// The files with their tags
    pub files: Vec<FileTagInfo>,
}

/// The model of a [`TagCanonicalityModalDataV2`].
pub struct ModalDataV2Model {
    pub tag_name: Seq<char>,
    pub context_label: Option<Seq<char>>,
    pub variants: Seq<VariantModel>,
    pub inodes: Seq<i64>,
    pub files: Seq<FileTagModel>,
}

impl DeepView for TagCanonicalityModalDataV2 {
    type V = ModalDataV2Model;

    open spec fn deep_view(&self) -> ModalDataV2Model {
        ModalDataV2Model {
            tag_name: self.tag_name@,
            context_label: self.context_label.deep_view(),
            variants: self.variants.deep_view(),
            inodes: self.inodes@,
            files: self.files.deep_view(),
        }
    }
}

fn copy_inodes(v: &Vec<i64>) -> (r: Vec<i64>)
    ensures
        r@ == v@,
{
    let mut out: Vec<i64> = Vec::new();
    let mut i: usize = 0;
    while i < v.len()
        invariant
            i <= v.len(),
            out.len() == i,
            forall|k: int| 0 <= k < i ==> out[k] == v[k],
        decreases v.len() - i,
    {
        out.push(v[i]);
        i = i + 1;
    }
    proof {
        assert(out@ =~= v@);
    }
    out
}

impl TagCanonicalityModalDataV2 {
    /// The data of a tag with several spellings, with the files that were found.
    pub fn from_tag_canonicity(signal: &TagCanonicitySignal, files: Vec<LoadedFile>) -> (r: Option<
        Self,
    >)
        ensures
            r.deep_view() == Some(
                ModalDataV2Model {
                    tag_name: signal.tag_name@,
                    context_label: None,
                    variants: ranked(signal.variants.deep_view()),
                    inodes: signal.inodes@,
                    files: file_list(files.deep_view()),
                },
            ),
    {
        Some(
            TagCanonicalityModalDataV2 {
                tag_name: signal.tag_name.clone(),
                context_label: None,
                variants: rank_variants(&signal.variants),
                inodes: copy_inodes(&signal.inodes),
                files: load_file_info(files),
            },
        )
    }

    /// The data of an album, with the files that were found.
    pub fn from_inconsistent_album_artist(
        signal: &InconsistentAlbumArtistSignal,
        files: Vec<LoadedFile>,
    ) -> (r: Option<Self>)
        ensures
            r.deep_view() == Some(
                ModalDataV2Model {
                    tag_name: "album_artist"@,
                    context_label: Some(signal.album@),
                    variants: ranked(signal.album_artist_variants.deep_view()),
                    inodes: signal.inodes@,
                    files: file_list(files.deep_view()),
                },
            ),
    {
        Some(
            TagCanonicalityModalDataV2 {
                tag_name: "album_artist".to_owned(),
                context_label: Some(signal.album.clone()),
                variants: rank_variants(&signal.album_artist_variants),
                inodes: copy_inodes(&signal.inodes),
                files: load_file_info(files),
            },
        )
    }

    /// The value to begin with: the commonest, and of several the first in
    /// order; nothing where there are no variants.
    pub fn default_canonical(&self) -> (r: String)
        ensures
            r@ == first_value(self.deep_view().variants),
    {
        most_common(&self.variants)
    }
}

/// The panes that can have the focus.
#[derive(Debug, Clone, Copy, PartialEq, Eq, Structural, Default)]
pub enum FocusPaneV2 {
    /// The variants
    #[default]
    Variants,
    /// The files
    Files,
}

/// The modal: the text field over the variants, the files beside them.
#[derive(Debug)]
pub struct TagCanonicalityStateV2 {
    /// What it works on
    pub data: TagCanonicalityModalDataV2,
    /// The variants to be squashed
    pub selected_variants: HashSet<usize>,
    /// The variant in hand; -1 is the text field
    pub variant_cursor: i32,
    /// The file in hand
    pub file_cursor: usize,
    /// The pane that has the focus
    pub focus_pane: FocusPaneV2,
    /// The value to squash to
    pub canonical_input: TextInputState,
    /// Whether it was filled at the start, or was decided before
    pub pre_filled: bool,
    /// Whether the album artist is to be set
    pub is_album_artist_mode: bool,
    /// Whether it is being asked if the variants are to stand as they are
    pub flag_confirmation_pending: bool,
    /// The group in hand
    pub group_index: usize,
    /// How many groups there are
    pub total_groups: usize,
    /// The first variant that is shown
    pub variant_scroll: usize,
    /// The first file that is shown
    pub file_scroll: usize,
}

/// The model of a [`TagCanonicalityStateV2`].
pub struct CanonicityV2Model {
    pub data: ModalDataV2Model,
    pub selected_variants: Set<usize>,
    pub variant_cursor: i32,
    pub file_cursor: usize,
    pub focus_pane: FocusPaneV2,
    pub canonical_input: TextInputModel,
    pub pre_filled: bool,
    pub is_album_artist_mode: bool,
    pub flag_confirmation_pending: bool,
    pub group_index: usize,
    pub total_groups: usize,
    pub variant_scroll: usize,
    pub file_scroll: usize,
}

impl View for TagCanonicalityStateV2 {
    type V = CanonicityV2Model;

    open spec fn view(&self) -> CanonicityV2Model {
        CanonicityV2Model {
            data: self.data.deep_view(),
            selected_variants: self.selected_variants@,
            variant_cursor: self.variant_cursor,
            file_cursor: self.file_cursor,
            focus_pane: self.focus_pane,
            canonical_input: self.canonical_input@,
            pre_filled: self.pre_filled,
            is_album_artist_mode: self.is_album_artist_mode,
            flag_confirmation_pending: self.flag_confirmation_pending,
            group_index: self.group_index,
            total_groups: self.total_groups,
            variant_scroll: self.variant_scroll,
            file_scroll: self.file_scroll,
        }
    }
}

/// The last of the files with an inode whose tags could be read.
pub open spec fn file_with(files: Seq<FileTagModel>, inode: i64) -> Option<FileTagModel>
    decreases files.len(),
{
    if files.len() == 0 {
        None
    } else if files.last().inode == inode && files.last().readable {
        Some(files.last())
    } else {
        file_with(files.drop_last(), inode)
    }
}

/// The changes to one file. The first value that goes is replaced, unless the
/// file has the canonical value already; the others are dropped. A file without
/// the tag gets it where the missing one, the empty value, is selected.
pub open spec fn file_ops(
    inode: i64,
    tag_name: Seq<char>,
    values: Seq<Seq<char>>,
    selected: Seq<Seq<char>>,
    canonical: Seq<char>,
) -> Seq<TagOpModel> {
    if values.len() == 0 {
        if selected.contains(""@) {
            seq![adding(inode, tag_name, canonical)]
        } else {
            Seq::empty()
        }
    } else {
        let gone = chosen(values, goes(selected, canonical));
        Seq::new(
            gone.len(),
            |i: int|
                if i == 0 && !values.contains(canonical) {
                    replacing(inode, tag_name, gone[i], canonical)
                } else {
                    dropping(inode, tag_name, gone[i])
                },
        )
    }
}

/// The changes to all files concerned, one after the other. A file whose tags
/// could not be read is left alone.
pub open spec fn all_file_ops(
    data: ModalDataV2Model,
    selected: Seq<Seq<char>>,
    canonical: Seq<char>,
    n: nat,
) -> Seq<TagOpModel>
    decreases n,
{
    if n == 0 {
        Seq::empty()
    } else {
        let inode = data.inodes[n - 1];
        all_file_ops(data, selected, canonical, (n - 1) as nat) + (match file_with(
            data.files,
            inode,
        ) {
            Some(f) => file_ops(
                inode,
                data.tag_name,
                values_of(f.tag_values, data.tag_name),
                selected,
                canonical,
            ),
            None => Seq::empty(),
        })
    }
}

/// The changes to tags among mutations, in order.
pub open spec fn ops_of(mutations: Seq<MutationModel>) -> Seq<TagOpModel>
    decreases mutations.len(),
{
    if mutations.len() == 0 {
        Seq::empty()
    } else {
        ops_of(mutations.drop_last()) + (match mutations.last() {
            MutationModel::ApplyTagOps { ops } => ops,
            _ => Seq::empty(),
        })
    }
}

/// The first new value among changes, or nothing.
pub open spec fn first_new_value(ops: Seq<TagOpModel>) -> Seq<char>
    decreases ops.len(),
{
    if ops.len() == 0 {
        Seq::empty()
    } else {
        match ops[0].new_value {
            Some(v) => v,
            None => first_new_value(ops.skip(1)),
        }
    }
}

/// Whether a value is an old one among changes.
pub open spec fn was_replaced(ops: Seq<TagOpModel>, value: Seq<char>) -> bool {
    exists|i: int| 0 <= i < ops.len() && (#[trigger] ops[i]).old_value == Some(value)
}

/// The places of the variants that are old values among changes.
pub open spec fn replaced_places(variants: Seq<VariantModel>, ops: Seq<TagOpModel>) -> Set<usize> {
    Set::new(|i: usize| i < variants.len() && was_replaced(ops, variants[i as int].value))
}

impl CanonicityV2Model {
    /// The cursors stand in their lists, or before the first item where there is none.
    pub open spec fn wf(self) -> bool {
        &&& self.data.variants.len() <= i32::MAX
        &&& -1 <= self.variant_cursor
        &&& self.variant_cursor < self.data.variants.len() || self.variant_cursor == 0
        &&& self.file_cursor < self.data.files.len() || self.file_cursor == 0
        &&& self.canonical_input.wf()
    }

    /// The modal as it opens: every variant is selected, and the first is in hand.
    pub open spec fn opened(
        data: ModalDataV2Model,
        pre_fill: bool,
        group_index: usize,
        total_groups: usize,
    ) -> Self {
        CanonicityV2Model {
            data,
            selected_variants: first_places(data.variants.len()),
            variant_cursor: 0,
            file_cursor: 0,
            focus_pane: FocusPaneV2::Variants,
            canonical_input: TextInputModel {
                focused: false,
                ..TextInputModel::empty().with_value(
                    if pre_fill {
                        first_value(data.variants)
                    } else {
                        Seq::empty()
                    },
                )
            },
            pre_filled: pre_fill,
            is_album_artist_mode: !pre_fill,
            flag_confirmation_pending: false,
            group_index,
            total_groups,
            variant_scroll: 0,
            file_scroll: 0,
        }
    }

    /// The modal with what was decided before.
    pub open spec fn restored(self, mutations: Seq<MutationModel>) -> Self {
        let ops = ops_of(mutations);
        if ops.len() == 0 {
            self
        } else {
            CanonicityV2Model {
                canonical_input: self.canonical_input.with_value(first_new_value(ops)),
                selected_variants: replaced_places(self.data.variants, ops),
                pre_filled: true,
                ..self
            }
        }
    }

    /// The variant in hand switched over.
    pub open spec fn toggled_here(self) -> Self {
        if 0 <= self.variant_cursor < self.data.variants.len() {
            CanonicityV2Model {
                selected_variants: toggled(self.selected_variants, self.variant_cursor as usize),
                ..self
            }
        } else {
            self
        }
    }

    /// The variant before, at last the text field.
    pub open spec fn variant_up(self) -> Self {
        if self.variant_cursor > -1 {
            CanonicityV2Model {
                variant_cursor: (self.variant_cursor - 1) as i32,
                canonical_input: TextInputModel {
                    focused: self.variant_cursor == 0,
                    ..self.canonical_input
                },
                ..self
            }
        } else {
            self
        }
    }

    /// The variant after.
    pub open spec fn variant_down(self) -> Self {
        if self.variant_cursor < self.data.variants.len() - 1 {
            CanonicityV2Model {
                variant_cursor: (self.variant_cursor + 1) as i32,
                canonical_input: TextInputModel { focused: false, ..self.canonical_input },
                ..self
            }
        } else {
            self
        }
    }

    /// The file before.
    pub open spec fn file_up(self) -> Self {
        if self.file_cursor > 0 {
            CanonicityV2Model { file_cursor: (self.file_cursor - 1) as usize, ..self }
        } else {
            self
        }
    }

    /// The file after.
    pub open spec fn file_down(self) -> Self {
        if self.file_cursor + 1 < self.data.files.len() {
            CanonicityV2Model { file_cursor: (self.file_cursor + 1) as usize, ..self }
        } else {
            self
        }
    }

    /// The value to squash to.
    pub open spec fn canonical(self) -> Seq<char> {
        trimmed(self.canonical_input.value)
    }

    /// Whether it can be confirmed.
    pub open spec fn ready(self) -> bool {
        self.canonical().len() > 0 && self.selected_variants.len() > 0
    }

    /// The values to be squashed.
    pub open spec fn picks(self) -> Seq<Seq<char>> {
        values_at(self.data.variants, self.selected_variants, self.data.variants.len())
    }

    /// The changes to the files.
    pub open spec fn ops(self) -> Seq<TagOpModel> {
        if self.canonical().len() == 0 || self.picks().len() == 0 {
            Seq::empty()
        } else {
            all_file_ops(self.data, self.picks(), self.canonical(), self.data.inodes.len())
        }
    }

    /// The mutations: one with all changes, or none.
    pub open spec fn mutations(self) -> Seq<MutationModel> {
        if self.ops().len() == 0 {
            Seq::empty()
        } else {
            seq![MutationModel::ApplyTagOps { ops: self.ops() }]
        }
    }
}

/// The changes to one file.
pub fn squash_file(
    inode: i64,
    tag_name: &str,
    values: &Vec<String>,
    selected: &Vec<String>,
    canonical: &str,
) -> (r: Vec<TagOp>)
    ensures
        r.deep_view() == file_ops(
            inode,
            tag_name@,
            values.deep_view(),
            selected.deep_view(),
            canonical@,
        ),
{
    proof {
        assert(values.deep_view().len() == values.len());
    }
    let mut out: Vec<TagOp> = nothing();
    if values.len() == 0 {
        if text::among(selected, "") {
            put(&mut out, TagOp::add_tag(inode, tag_name, canonical));
        }
        return out;
    }
    let ghost want = file_ops(
        inode,
        tag_name@,
        values.deep_view(),
        selected.deep_view(),
        canonical@,
    );
    let gone: Vec<String> = going(values, selected, canonical);
    let present: bool = text::among(values, canonical);
    proof {
        assert(gone.deep_view().len() == gone.len());
    }
    let mut added: bool = present;
    let mut i: usize = 0;
    while i < gone.len()
        invariant
            i <= gone.len(),
            want == file_ops(
                inode,
                tag_name@,
                values.deep_view(),
                selected.deep_view(),
                canonical@,
            ),
            values.deep_view().len() > 0,
            gone.deep_view() == chosen(
                values.deep_view(),
                goes(selected.deep_view(), canonical@),
            ),
            gone.deep_view().len() == gone.len(),
            present == values.deep_view().contains(canonical@),
            added == (present || i > 0),
            out.len() == i,
            forall|k: int| 0 <= k < i ==> (#[trigger] out[k]).deep_view() == want[k],
        decreases gone.len() - i,
    {
        let op: TagOp;
        if !added {
            op = TagOp::replace_tag(inode, tag_name, gone[i].as_str(), canonical);
            added = true;
        } else {
            op = TagOp::drop_tag(inode, tag_name, gone[i].as_str());
        }
        proof {
            assert(op.deep_view() == want[i as int]);
        }
        out.push(op);
        i = i + 1;
    }
    proof {
        assert(out.deep_view() =~= want);
    }
    out
}

/// The last of the files with an inode whose tags could be read.
fn find_file(files: &Vec<FileTagInfo>, inode: i64) -> (r: Option<&FileTagInfo>)
    ensures
        (match r {
            Some(f) => Some(f.deep_view()),
            None => None,
        }) == file_with(files.deep_view(), inode),
{
    let ghost s = files.deep_view();
    let mut n: usize = files.len();
    proof {
        assert(s.take(n as int) =~= s);
    }
    while n > 0
        invariant
            n <= files.len(),
            s == files.deep_view(),
            file_with(s, inode) == file_with(s.take(n as int), inode),
        decreases n,
    {
        proof {
            assert(s.take(n as int).drop_last() =~= s.take(n - 1));
            assert(s.take(n as int).last() == s[n - 1]);
        }
        if files[n - 1].inode == inode && files[n - 1].readable {
            return Some(&files[n - 1]);
        }
        n = n - 1;
    }
    None
}

/// The changes to tags among mutations, in order.
fn gather_ops(mutations: &Vec<Mutation>) -> (r: Vec<TagOp>)
    ensures
        r.deep_view() == ops_of(mutations.deep_view()),
{
    let ghost s = mutations.deep_view();
    let mut out: Vec<TagOp> = nothing();
    proof {
        assert(s.take(0) =~= Seq::<MutationModel>::empty());
    }
    let mut i: usize = 0;
    while i < mutations.len()
        invariant
            i <= mutations.len(),
            s == mutations.deep_view(),
            out.deep_view() == ops_of(s.take(i as int)),
        decreases mutations.len() - i,
    {
        proof {
            assert(s.take(i as int + 1).drop_last() =~= s.take(i as int));
            assert(s.take(i as int + 1).last() == s[i as int]);
            assert(out.deep_view() + Seq::<TagOpModel>::empty() =~= out.deep_view());
        }
        match &mutations[i] {
            Mutation::ApplyTagOps { ops } => {
                put_all(&mut out, crate::corpus::copy_ops(ops));
            },
            _ => {},
        }
        i = i + 1;
    }
    proof {
        assert(s.take(s.len() as int) =~= s);
    }
    out
}

fn new_value_of(ops: &Vec<TagOp>) -> (r: String)
    ensures
        r@ == first_new_value(ops.deep_view()),
{
    let ghost s = ops.deep_view();
    proof {
        assert(s.skip(0) =~= s);
    }
    let mut i: usize = 0;
    while i < ops.len()
        invariant
            i <= ops.len(),
            s == ops.deep_view(),
            first_new_value(s) == first_new_value(s.skip(i as int)),
        decreases ops.len() - i,
    {
        proof {
            assert(s.skip(i as int)[0] == s[i as int]);
            assert(s.skip(i as int).skip(1) =~= s.skip(i as int + 1));
        }
        match &ops[i].new_value {
            Some(v) => {
                return v.clone();
            },
            None => {},
        }
        i = i + 1;
    }
    let r: String = String::new();
    proof {
        assert(r@ =~= Seq::<char>::empty());
    }
    r
}

fn is_old_value(ops: &Vec<TagOp>, value: &str) -> (r: bool)
    ensures
        r == was_replaced(ops.deep_view(), value@),
{
    let ghost s = ops.deep_view();
    let mut i: usize = 0;
    while i < ops.len()
        invariant
            i <= ops.len(),
            s == ops.deep_view(),
            forall|k: int| 0 <= k < i ==> (#[trigger] s[k]).old_value != Some(value@),
        decreases ops.len() - i,
    {
        match &ops[i].old_value {
            Some(v) => {
                if text::same(v.as_str(), value) {
                    proof {
                        assert(s[i as int].old_value == Some(value@));
                    }
                    return true;
                }
            },
            None => {},
        }
        i = i + 1;
    }
    false
}

impl TagCanonicalityStateV2 {
    /// The path of the file in hand.
    pub fn selected_path(&self) -> (r: Option<&str>)
        ensures
            (match r {
                Some(p) => Some(p@),
                None => None,
            }) == (if self@.file_cursor < self@.data.files.len() {
                Some(self@.data.files[self@.file_cursor as int].path)
            } else {
                None
            }),
    {
        if self.file_cursor < self.data.files.len() {
            Some(self.data.files[self.file_cursor].path.as_str())
        } else {
            None
        }
    }

    /// The modal over its data. Filled at the start, the field holds the
    /// commonest value; an album artist is not filled in.
    pub fn new(
        data: TagCanonicalityModalDataV2,
        pre_fill: bool,
        group_index: usize,
        total_groups: usize,
    ) -> (r: Self)
        requires
            data.variants.len() <= i32::MAX,
        ensures
            r@ == CanonicityV2Model::opened(
                data.deep_view(),
                pre_fill,
                group_index,
                total_groups,
            ),
            r@.wf(),
    {
        let value: String = if pre_fill {
            data.default_canonical()
        } else {
            let empty: String = String::new();
            proof {
                assert(empty@ =~= Seq::<char>::empty());
            }
            empty
        };
        let selected_variants: HashSet<usize> = all_below(data.variants.len());
        let mut canonical_input: TextInputState = TextInputState::new();
        canonical_input.set_value(value);
        canonical_input.focused = false;
        TagCanonicalityStateV2 {
            data,
            selected_variants,
            variant_cursor: 0,
            file_cursor: 0,
            focus_pane: FocusPaneV2::Variants,
            canonical_input,
            pre_filled: pre_fill,
            is_album_artist_mode: !pre_fill,
            flag_confirmation_pending: false,
            group_index,
            total_groups,
            variant_scroll: 0,
            file_scroll: 0,
        }
    }

    /// Takes up again what was decided before, as its mutations tell.
    pub fn restore_from_mutations(&mut self, mutations: &Vec<Mutation>)
        requires
            old(self)@.wf(),
        ensures
            final(self)@ == old(self)@.restored(mutations.deep_view()),
            final(self)@.wf(),
    {
        let ops: Vec<TagOp> = gather_ops(mutations);
        proof {
            assert(ops.deep_view().len() == ops.len());
        }
        if ops.len() == 0 {
            return;
        }
        let value: String = new_value_of(&ops);
        let ghost variants = self@.data.variants;
        let ghost os = ops.deep_view();
        let mut selected: HashSet<usize> = HashSet::new();
        let mut i: usize = 0;
        while i < self.data.variants.len()
            invariant
                i <= self.data.variants.len(),
                self@ == old(self)@,
                variants == self@.data.variants,
                os == ops.deep_view(),
                forall|k: usize|
                    #[trigger] selected@.contains(k) <==> k < i && was_replaced(
                        os,
                        variants[k as int].value,
                    ),
            decreases self.data.variants.len() - i,
        {
            proof {
                assert(variants[i as int].value == self.data.variants[i as int].value@);
            }
            if is_old_value(&ops, self.data.variants[i].value.as_str()) {
                selected.insert(i);
            }
            i = i + 1;
        }
        proof {
            assert(variants.len() == self.data.variants.len());
            assert(selected@ =~= replaced_places(variants, os));
        }
        self.canonical_input.set_value(value);
        self.selected_variants = selected;
        self.pre_filled = true;
    }

    /// Switches the variant in hand over.
    pub fn toggle_selection(&mut self)
        ensures
            final(self)@ == old(self)@.toggled_here(),
    {
        if self.variant_cursor >= 0 {
            let i: usize = self.variant_cursor as usize;
            if i < self.data.variants.len() {
                toggle(&mut self.selected_variants, i);
            }
        }
    }

    /// Takes the variant before, at last the text field.
    pub fn variant_cursor_up(&mut self)
        ensures
            final(self)@ == old(self)@.variant_up(),
    {
        if self.variant_cursor > -1 {
            self.variant_cursor = self.variant_cursor - 1;
            self.canonical_input.focused = self.variant_cursor == -1;
        }
    }

    /// Takes the variant after.
    pub fn variant_cursor_down(&mut self)
        requires
            old(self)@.data.variants.len() <= i32::MAX,
        ensures
            final(self)@ == old(self)@.variant_down(),
    {
        proof {
            assert(self@.data.variants.len() == self.data.variants.len());
        }
        let last: i32 = self.data.variants.len() as i32 - 1;
        if self.variant_cursor < last {
            self.variant_cursor = self.variant_cursor + 1;
            self.canonical_input.focused = false;
        }
    }

    /// Takes the file before.
    pub fn file_cursor_up(&mut self)
        ensures
            final(self)@ == old(self)@.file_up(),
    {
        if self.file_cursor > 0 {
            self.file_cursor = self.file_cursor - 1;
        }
    }

    /// Takes the file after.
    pub fn file_cursor_down(&mut self)
        ensures
            final(self)@ == old(self)@.file_down(),
    {
        if self.data.files.len() > 0 && self.file_cursor < self.data.files.len() - 1 {
            self.file_cursor = self.file_cursor + 1;
        }
    }

    /// Whether it can be confirmed.
    pub fn can_submit(&self) -> (r: bool)
        ensures
            r == self@.ready(),
    {
        text::trim(self.canonical_input.value()).unicode_len() > 0 && self.selected_variants.len()
            > 0
    }

    /// The values to be squashed, in the order of the variants.
    pub fn selected_variant_values(&self) -> (r: Vec<String>)
        ensures
            r.deep_view() == self@.picks(),
    {
        selected_values(&self.data.variants, &self.selected_variants)
    }

    /// The mutations that squash the selected values, from the tags that the
    /// files had when the modal opened: one with all changes, or none.
    pub fn mutations(&self) -> (r: Vec<Mutation>)
        ensures
            r.deep_view() == self@.mutations(),
    {
        let mut out: Vec<Mutation> = nothing();
        let canonical: &str = text::trim(self.canonical_input.value());
        if canonical.unicode_len() == 0 {
            return out;
        }
        let selected: Vec<String> = self.selected_variant_values();
        proof {
            assert(selected.deep_view().len() == selected.len());
        }
        if selected.len() == 0 {
            return out;
        }
        let mut ops: Vec<TagOp> = nothing();
        let mut i: usize = 0;
        while i < self.data.inodes.len()
            invariant
                i <= self.data.inodes.len(),
                canonical@ == self@.canonical(),
                selected.deep_view() == self@.picks(),
                ops.deep_view() == all_file_ops(
                    self@.data,
                    self@.picks(),
                    self@.canonical(),
                    i as nat,
                ),
            decreases self.data.inodes.len() - i,
        {
            let inode: i64 = self.data.inodes[i];
            proof {
                assert(ops.deep_view() + Seq::<TagOpModel>::empty() =~= ops.deep_view());
            }
            match find_file(&self.data.files, inode) {
                Some(f) => {
                    let tag_name: &str = self.data.tag_name.as_str();
                    let values: Vec<String> = tag_values(&f.tag_values, tag_name);
                    put_all(
                        &mut ops,
                        squash_file(inode, tag_name, &values, &selected, canonical),
                    );
                },
                None => {},
            }
            i = i + 1;
        }
        proof {
            assert(ops.deep_view().len() == ops.len());
        }
        if ops.len() > 0 {
            put(&mut out, Mutation::ApplyTagOps { ops });
        }
        out
    }
}

/// Whether a file with an inode is in a list, with tags that could be read.
pub open spec fn is_readable(files: Seq<FileTagModel>, inode: i64) -> bool {
    exists|i: int| 0 <= i < files.len() && (#[trigger] files[i]).inode == inode && files[i].readable
}

proof fn lemma_file_with_is_readable(files: Seq<FileTagModel>, inode: i64)
    ensures
        file_with(files, inode) is Some <==> is_readable(files, inode),
    decreases files.len(),
{
    if files.len() > 0 {
        let rest = files.drop_last();
        lemma_file_with_is_readable(rest, inode);
        assert(forall|i: int| 0 <= i < rest.len() ==> (#[trigger] rest[i]) == files[i]);
        assert(files.last() == files[files.len() - 1]);
        if is_readable(rest, inode) {
            let k = choose|i: int|
                0 <= i < rest.len() && (#[trigger] rest[i]).inode == inode && rest[i].readable;
            assert(files[k] == rest[k]);
        }
        if is_readable(files, inode) && !(files.last().inode == inode && files.last().readable) {
            let k = choose|i: int|
                0 <= i < files.len() && (#[trigger] files[i]).inode == inode && files[i].readable;
            assert(rest[k] == files[k]);
        }
    }
}

proof fn lemma_ops_on_readable(
    data: ModalDataV2Model,
    selected: Seq<Seq<char>>,
    canonical: Seq<char>,
    n: nat,
)
    requires
        n <= data.inodes.len(),
    ensures
        forall|i: int|
            0 <= i < all_file_ops(data, selected, canonical, n).len() ==> is_readable(
                data.files,
                (#[trigger] all_file_ops(data, selected, canonical, n)[i]).inode,
            ) && data.inodes.contains(all_file_ops(data, selected, canonical, n)[i].inode),
    decreases n,
{
    if n > 0 {
        lemma_ops_on_readable(data, selected, canonical, (n - 1) as nat);
        let inode = data.inodes[n - 1];
        lemma_file_with_is_readable(data.files, inode);
        let before = all_file_ops(data, selected, canonical, (n - 1) as nat);
        let all = all_file_ops(data, selected, canonical, n);
        assert forall|i: int| 0 <= i < all.len() implies is_readable(
            data.files,
            (#[trigger] all[i]).inode,
        ) && data.inodes.contains(all[i].inode) by {
            if i < before.len() {
                assert(all[i] == before[i]);
            } else {
                assert(all[i].inode == inode);
            }
        }
    }
}

/// Only files that are concerned, and whose tags could be read, are changed.
pub proof fn law_only_readable_files_change(m: CanonicityV2Model, i: int)
    requires
        0 <= i < m.ops().len(),
    ensures
        m.data.inodes.contains(m.ops()[i].inode),
        is_readable(m.data.files, m.ops()[i].inode),
{
    lemma_ops_on_readable(m.data, m.picks(), m.canonical(), m.data.inodes.len());
}

/// Whether a change belongs to a decision: it is on its tag, it brings the
/// canonical value or none, and it takes a selected value away or none.
pub open spec fn decided(
    op: TagOpModel,
    tag_name: Seq<char>,
    selected: Seq<Seq<char>>,
    canonical: Seq<char>,
) -> bool {
    &&& op.tag_name == tag_name
    &&& op.new_value matches Some(v) ==> v == canonical
    &&& op.old_value matches Some(v) ==> selected.contains(v) && v != canonical
}

proof fn lemma_file_ops(
    inode: i64,
    tag_name: Seq<char>,
    values: Seq<Seq<char>>,
    selected: Seq<Seq<char>>,
    canonical: Seq<char>,
)
    ensures
        forall|i: int|
            0 <= i < file_ops(inode, tag_name, values, selected, canonical).len() ==> decided(
                #[trigger] file_ops(inode, tag_name, values, selected, canonical)[i],
                tag_name,
                selected,
                canonical,
            ),
{
    crate::lists::law_chosen(values, goes(selected, canonical));
    let gone = chosen(values, goes(selected, canonical));
    assert forall|i: int|
        0 <= i < file_ops(inode, tag_name, values, selected, canonical).len() implies decided(
        #[trigger] file_ops(inode, tag_name, values, selected, canonical)[i],
        tag_name,
        selected,
        canonical,
    ) by {
        if values.len() > 0 {
            assert(goes(selected, canonical)(gone[i]));
        }
    }
}

proof fn lemma_all_file_ops(
    data: ModalDataV2Model,
    selected: Seq<Seq<char>>,
    canonical: Seq<char>,
    n: nat,
)
    ensures
        forall|i: int|
            0 <= i < all_file_ops(data, selected, canonical, n).len() ==> decided(
                #[trigger] all_file_ops(data, selected, canonical, n)[i],
                data.tag_name,
                selected,
                canonical,
            ),
    decreases n,
{
    if n > 0 {
        lemma_all_file_ops(data, selected, canonical, (n - 1) as nat);
        let inode = data.inodes[n - 1];
        let before = all_file_ops(data, selected, canonical, (n - 1) as nat);
        let all = all_file_ops(data, selected, canonical, n);
        match file_with(data.files, inode) {
            Some(f) => {
                let values = values_of(f.tag_values, data.tag_name);
                let more = file_ops(inode, data.tag_name, values, selected, canonical);
                lemma_file_ops(inode, data.tag_name, values, selected, canonical);
                assert(all == before + more);
                assert forall|i: int| 0 <= i < all.len() implies decided(
                    #[trigger] all[i],
                    data.tag_name,
                    selected,
                    canonical,
                ) by {
                    if i < before.len() {
                        assert(all[i] == before[i]);
                    } else {
                        assert(all[i] == more[i - before.len()]);
                    }
                }
            },
            None => {
                assert(all =~= before);
            },
        }
    }
}

/// Every selected value of a file is taken away, but for the canonical one; and
/// a file that is changed holds the canonical value, or is given it once.
pub proof fn law_selected_values_go(
    inode: i64,
    tag_name: Seq<char>,
    values: Seq<Seq<char>>,
    selected: Seq<Seq<char>>,
    canonical: Seq<char>,
)
    ensures
        forall|k: int|
            0 <= k < values.len() && selected.contains(#[trigger] values[k]) && values[k]
                != canonical ==> was_replaced(
                file_ops(inode, tag_name, values, selected, canonical),
                values[k],
            ),
        file_ops(inode, tag_name, values, selected, canonical).len() > 0 ==> values.contains(
            canonical,
        ) || file_ops(inode, tag_name, values, selected, canonical)[0].new_value == Some(canonical),
        forall|i: int|
            0 < i < file_ops(inode, tag_name, values, selected, canonical).len() ==> (
            #[trigger] file_ops(
                inode,
                tag_name,
                values,
                selected,
                canonical,
            )[i]).new_value is None,
{
    let p = goes(selected, canonical);
    let gone = chosen(values, p);
    let ops = file_ops(inode, tag_name, values, selected, canonical);
    crate::lists::law_chosen(values, p);
    assert forall|k: int|
        0 <= k < values.len() && selected.contains(#[trigger] values[k]) && values[k]
            != canonical implies was_replaced(ops, values[k]) by {
        assert(p(values[k]));
        assert(gone.contains(values[k]));
        let j = choose|j: int| 0 <= j < gone.len() && gone[j] == values[k];
        assert(ops[j].old_value == Some(values[k]));
    }
}

/// Every change is on the tag, brings the canonical value or none, and takes
/// away only values that are selected and not canonical.
pub proof fn law_changes_are_decided(m: CanonicityV2Model, i: int)
    requires
        0 <= i < m.ops().len(),
    ensures
        decided(m.ops()[i], m.data.tag_name, m.picks(), m.canonical()),
{
    lemma_all_file_ops(m.data, m.picks(), m.canonical(), m.data.inodes.len());
}

proof fn lemma_first_new_value(ops: Seq<TagOpModel>)
    ensures
        (exists|i: int| 0 <= i < ops.len() && (#[trigger] ops[i]).new_value is Some) ==> exists|
            i: int,
        |
            0 <= i < ops.len() && (#[trigger] ops[i]).new_value == Some(first_new_value(ops)),
    decreases ops.len(),
{
    if ops.len() > 0 {
        let rest = ops.skip(1);
        lemma_first_new_value(rest);
        if ops[0].new_value is Some {
            assert(ops[0].new_value == Some(first_new_value(ops)));
        } else if exists|i: int| 0 <= i < ops.len() && (#[trigger] ops[i]).new_value is Some {
            let i = choose|i: int| 0 <= i < ops.len() && (#[trigger] ops[i]).new_value is Some;
            assert(rest[i - 1] == ops[i]);
            let j = choose|j: int|
                0 <= j < rest.len() && (#[trigger] rest[j]).new_value == Some(
                    first_new_value(rest),
                );
            assert(ops[j + 1] == rest[j]);
        }
    }
}

/// Taking up again what was decided: where a value was brought into any file,
/// the field holds it again, and what is selected again was selected.
pub proof fn law_restore_brings_the_decision_back(m: CanonicityV2Model, start: CanonicityV2Model)
    requires
        m.ops().len() > 0,
        start.data == m.data,
        exists|i: int| 0 <= i < m.ops().len() && (#[trigger] m.ops()[i]).new_value is Some,
    ensures
        start.restored(m.mutations()).canonical_input.value == m.canonical(),
        forall|i: usize| #[trigger]
            start.restored(m.mutations()).selected_variants.contains(i) ==> i
                < m.data.variants.len() && m.picks().contains(m.data.variants[i as int].value),
{
    let ops = m.ops();
    let ms = m.mutations();
    assert(ms.drop_last() =~= Seq::<MutationModel>::empty());
    assert(Seq::<TagOpModel>::empty() + ops =~= ops);
    assert(ops_of(ms.drop_last()) == Seq::<TagOpModel>::empty());
    assert(ops_of(ms) == ops);
    lemma_first_new_value(ops);
    let i = choose|i: int|
        0 <= i < ops.len() && (#[trigger] ops[i]).new_value == Some(first_new_value(ops));
    law_changes_are_decided(m, i);
    assert forall|i: usize| #[trigger]
        start.restored(ms).selected_variants.contains(i) implies i < m.data.variants.len()
        && m.picks().contains(m.data.variants[i as int].value) by {
        let value = m.data.variants[i as int].value;
        assert(was_replaced(ops, value));
        let k = choose|k: int| 0 <= k < ops.len() && (#[trigger] ops[k]).old_value == Some(value);
        law_changes_are_decided(m, k);
    }
}

/// Space twice leaves the selection as it was.
pub proof fn law_space_twice(m: CanonicityV2Model)
    ensures
        m.toggled_here().toggled_here() == m,
{
    assert(m.toggled_here().toggled_here().selected_variants =~= m.selected_variants);
}

} // verus!
