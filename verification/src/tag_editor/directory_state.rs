//! Editing all the files of a directory as one: gathering their tags, looking
//! at them together, and editing fields.

use vstd::prelude::*;

use crate::lists::{chosen, distinct, first_place, flat, insert_item, lemma_chosen_start, lemma_chosen_step, put_new, set_item};
use crate::ordering::{in_order, sorted, Ranked};
use crate::paths;
use crate::screen::{nothing, put, put_all};
use crate::tag_editor::field_editing::scroll_down;
use crate::tag_editor::model::{scrolled_down, without_last};
use crate::tag_editor::types::{AggregatedTagField, AggregatedTagFieldModel, AggregatedValue, AggregatedValueModel, FieldEditState};
use crate::text;

verus! {

// ---------------------------------------------------------------------------
// Types
// ---------------------------------------------------------------------------

/// A file with the tags that were read from it.
#[derive(Debug)]
pub struct FileEntry {
    pub path: String,
    pub filename: String,
    pub tags: Vec<(String, String)>,
}

/// The model of a [`FileEntry`].
pub struct FileEntryModel {
    pub path: Seq<char>,
    pub filename: Seq<char>,
    pub tags: Seq<(Seq<char>, Seq<char>)>,
}

impl DeepView for FileEntry {
    type V = FileEntryModel;

    open spec fn deep_view(&self) -> FileEntryModel {
        FileEntryModel {
            path: self.path@,
            filename: self.filename@,
            tags: self.tags.deep_view(),
        }
    }
}

/// Files stand in the order of their paths.
impl Ranked for FileEntry {
    open spec fn precedes(a: FileEntryModel, b: FileEntryModel) -> bool {
        paths::path_before(a.path, b.path)
    }

    fn before(&self, other: &Self) -> (r: bool) {
        paths::comes_before(self.path.as_str(), other.path.as_str())
    }
}

/// Whether one file comes before another.
pub open spec fn by_path() -> spec_fn(FileEntryModel, FileEntryModel) -> bool {
    |a: FileEntryModel, b: FileEntryModel| FileEntry::precedes(a, b)
}

/// How far the gathering of tags is.
#[derive(Debug)]
pub struct GatheringState {
    pub total_files: usize,
    pub processed_files: usize,
    pub current_file: Option<String>,
    /// Whether the operator called it off
    pub cancelled: bool,
}

/// The model of a [`GatheringState`].
pub struct GatheringModel {
    pub total_files: usize,
    pub processed_files: usize,
    pub current_file: Option<Seq<char>>,
    pub cancelled: bool,
}

impl DeepView for GatheringState {
    type V = GatheringModel;

    open spec fn deep_view(&self) -> GatheringModel {
        GatheringModel {
            total_files: self.total_files,
            processed_files: self.processed_files,
            current_file: self.current_file.deep_view(),
            cancelled: self.cancelled,
        }
    }
}

/// News from the gathering of tags.
#[derive(Debug)]
pub enum GatheringMessage {
    /// How many files there are
    TotalFiles(usize),
    /// A file is being read
    Processing(usize, String),
    /// A file was read
    FileProcessed { index: usize, path: String, tags: Vec<(String, String)> },
    /// A file could not be read
    FileError { index: usize, path: String, error: String },
    /// All files were read
    Complete,
}

/// The model of a [`GatheringMessage`].
pub enum GatheringMessageModel {
    TotalFiles(usize),
    Processing(usize, Seq<char>),
    FileProcessed { index: usize, path: Seq<char>, tags: Seq<(Seq<char>, Seq<char>)> },
    FileError { index: usize, path: Seq<char>, error: Seq<char> },
    Complete,
}

impl DeepView for GatheringMessage {
    type V = GatheringMessageModel;

    open spec fn deep_view(&self) -> GatheringMessageModel {
        match self {
            GatheringMessage::TotalFiles(n) => GatheringMessageModel::TotalFiles(*n),
            GatheringMessage::Processing(i, p) => GatheringMessageModel::Processing(*i, p@),
            GatheringMessage::FileProcessed { index, path, tags } => GatheringMessageModel::FileProcessed {
                index: *index,
                path: path@,
                tags: tags.deep_view(),
            },
            GatheringMessage::FileError { index, path, error } => GatheringMessageModel::FileError {
                index: *index,
                path: path@,
                error: error@,
            },
            GatheringMessage::Complete => GatheringMessageModel::Complete,
        }
    }
}

/// How far the operator is in overwriting differing values.
#[derive(Debug, Clone, Copy, PartialEq, Eq, Structural)]
pub enum VariousConfirmState {
    Confirming,
    Editing,
}

/// The pane that has the focus.
#[derive(Debug, Clone, Copy, PartialEq, Eq, Structural)]
pub enum DirectoryTagEditorFocus {
    TagFields,
    ActionPane,
}

/// The modals of the directory editor.
#[derive(Debug, Clone, Copy, PartialEq, Eq, Structural)]
pub enum DirectoryTagEditorModal {
    /// Moving to another directory with unsaved changes
    UnsavedChanges { going_next: bool },
    /// The changes before they are saved
    ChangePreview { scroll_offset: usize, save_and_next: bool },
}

/// What the directory editor asks of the view around it.
#[derive(Debug)]
pub enum DirectoryTagEditorAction {
    /// Nothing
    Nothing,
    /// Close the editor
    Exit,
    /// Show a message
    StatusMessage(String),
    /// Show a modal
    ShowModal(DirectoryTagEditorModal),
    /// Move to the next directory, or to the previous one
    SwitchDirectory(bool),
}

/// The model of a [`DirectoryTagEditorAction`].
pub enum DirectoryTagEditorActionModel {
    Nothing,
    Exit,
    StatusMessage(Seq<char>),
    ShowModal(DirectoryTagEditorModal),
    SwitchDirectory(bool),
}

impl DeepView for DirectoryTagEditorAction {
    type V = DirectoryTagEditorActionModel;

    open spec fn deep_view(&self) -> DirectoryTagEditorActionModel {
        match self {
            DirectoryTagEditorAction::Nothing => DirectoryTagEditorActionModel::Nothing,
            DirectoryTagEditorAction::Exit => DirectoryTagEditorActionModel::Exit,
            DirectoryTagEditorAction::StatusMessage(s) => DirectoryTagEditorActionModel::StatusMessage(
                s@,
            ),
            DirectoryTagEditorAction::ShowModal(m) => DirectoryTagEditorActionModel::ShowModal(*m),
            DirectoryTagEditorAction::SwitchDirectory(b) => DirectoryTagEditorActionModel::SwitchDirectory(
                *b,
            ),
        }
    }
}

/// A change to every file of the directory.
#[derive(Debug)]
pub struct DirectoryTagChange {
    pub field_name: String,
    pub new_value: String,
    pub affected_files: usize,
}

/// The model of a [`DirectoryTagChange`].
pub struct DirectoryTagChangeModel {
    pub field_name: Seq<char>,
    pub new_value: Seq<char>,
    pub affected_files: usize,
}

impl DeepView for DirectoryTagChange {
    type V = DirectoryTagChangeModel;

    open spec fn deep_view(&self) -> DirectoryTagChangeModel {
        DirectoryTagChangeModel {
            field_name: self.field_name@,
            new_value: self.new_value@,
            affected_files: self.affected_files,
        }
    }
}

/// The editor of a directory.
#[derive(Debug)]
pub struct DirectoryTagEditorState {
    /// The files with their tags
    pub files: Vec<FileEntry>,
    /// All files as one
    pub aggregated_fields: Vec<AggregatedTagField>,
    /// All files as one, as they were
    pub original_aggregated_fields: Vec<AggregatedTagField>,
    /// The directory
    pub current_directory: String,
    /// The directories beside it, and itself
    pub sibling_directories: Vec<String>,
    /// Its place among them
    pub current_sibling_idx: usize,
    /// The field in hand
    pub current_field_idx: usize,
    /// Whether the field is being typed
    pub field_edit_state: FieldEditState,
    /// The value as typed
    pub value_buffer: String,
    /// How far the operator is in overwriting differing values
    pub various_confirm_state: Option<VariousConfirmState>,
    /// How far the gathering is, while it goes on
    pub gathering_state: Option<GatheringState>,
    /// The pane that has the focus
    pub focus: DirectoryTagEditorFocus,
    /// The first field that is shown
    pub tag_scroll_offset: usize,
    /// How many fields can be shown
    pub tag_visible_height: usize,
    /// The first file that is shown
    pub file_scroll_offset: usize,
    /// How many files can be shown
    pub file_visible_height: usize,
    /// The file in hand
    pub selected_file_idx: usize,
}

/// The model of a [`DirectoryTagEditorState`].
pub struct DirectoryModel {
    pub files: Seq<FileEntryModel>,
    pub aggregated_fields: Seq<AggregatedTagFieldModel>,
    pub original_aggregated_fields: Seq<AggregatedTagFieldModel>,
    pub current_directory: Seq<char>,
    pub sibling_directories: Seq<Seq<char>>,
    pub current_sibling_idx: usize,
    pub current_field_idx: usize,
    pub field_edit_state: FieldEditState,
    pub value_buffer: Seq<char>,
    pub various_confirm_state: Option<VariousConfirmState>,
    pub gathering_state: Option<GatheringModel>,
    pub focus: DirectoryTagEditorFocus,
    pub tag_scroll_offset: usize,
    pub tag_visible_height: usize,
    pub file_scroll_offset: usize,
    pub file_visible_height: usize,
    pub selected_file_idx: usize,
}

impl View for DirectoryTagEditorState {
    type V = DirectoryModel;

    open spec fn view(&self) -> DirectoryModel {
        DirectoryModel {
            files: self.files.deep_view(),
            aggregated_fields: self.aggregated_fields.deep_view(),
            original_aggregated_fields: self.original_aggregated_fields.deep_view(),
            current_directory: self.current_directory@,
            sibling_directories: self.sibling_directories.deep_view(),
            current_sibling_idx: self.current_sibling_idx,
            current_field_idx: self.current_field_idx,
            field_edit_state: self.field_edit_state,
            value_buffer: self.value_buffer@,
            various_confirm_state: self.various_confirm_state,
            gathering_state: self.gathering_state.deep_view(),
            focus: self.focus,
            tag_scroll_offset: self.tag_scroll_offset,
            tag_visible_height: self.tag_visible_height,
            file_scroll_offset: self.file_scroll_offset,
            file_visible_height: self.file_visible_height,
            selected_file_idx: self.selected_file_idx,
        }
    }
}

// ---------------------------------------------------------------------------
// Directories
// ---------------------------------------------------------------------------

/// The condition of being a directory whose name does not begin with a dot.
pub open spec fn plain_directory() -> spec_fn((Seq<char>, bool)) -> bool {
    |e: (Seq<char>, bool)|
        e.1 && !(paths::name_in(e.0) matches Some(name) && name.len() > 0 && name[0] == '.')
}

/// The path of an entry.
pub open spec fn entry_path() -> spec_fn((Seq<char>, bool)) -> Seq<char> {
    |e: (Seq<char>, bool)| e.0
}

/// The directories among the entries of a directory, without the hidden ones,
/// in their order.
pub open spec fn directories_in(entries: Seq<(Seq<char>, bool)>) -> Seq<Seq<char>> {
    in_order(
        crate::lists::picked(entries, plain_directory(), entry_path()),
        paths::by_components(),
    )
}

/// The directories beside a directory: those in the listing of the directory
/// around it, or it alone where there is none around it.
pub open spec fn siblings_of(directory: Seq<char>, entries: Seq<(Seq<char>, bool)>) -> Seq<
    Seq<char>,
> {
    if paths::lies_in_directory(directory) {
        directories_in(entries)
    } else {
        seq![directory]
    }
}

/// Finds the directories beside a directory in the listing of the directory
/// around it, each entry being a path and whether it is a directory.
pub fn discover_siblings(directory: &str, entries: &Vec<(String, bool)>) -> (r: Vec<String>)
    ensures
        r.deep_view() == siblings_of(directory@, entries.deep_view()),
{
    if !paths::has_parent(directory) {
        let mut alone: Vec<String> = nothing();
        put(&mut alone, directory.to_owned());
        return alone;
    }
    let ghost s = entries.deep_view();
    let mut kept: Vec<String> = nothing();
    proof {
        crate::lists::lemma_picked_start(s, plain_directory(), entry_path());
    }
    let mut i: usize = 0;
    while i < entries.len()
        invariant
            i <= entries.len(),
            s == entries.deep_view(),
            kept.deep_view() == crate::lists::picked(
                s.take(i as int),
                plain_directory(),
                entry_path(),
            ),
        decreases entries.len() - i,
    {
        proof {
            crate::lists::lemma_picked_step(s, i as int, plain_directory(), entry_path());
        }
        let hidden: bool = match paths::file_name(entries[i].0.as_str()) {
            Some(name) => name.unicode_len() > 0 && name.get_char(0) == '.',
            None => false,
        };
        if entries[i].1 && !hidden {
            put(&mut kept, entries[i].0.clone());
        }
        i = i + 1;
    }
    proof {
        assert(s.take(s.len() as int) =~= s);
    }
    paths::sorted_paths(kept)
}

// ---------------------------------------------------------------------------
// Many files as one
// ---------------------------------------------------------------------------

/// The condition of being a tag with a name.
pub open spec fn tag_named(name: Seq<char>) -> spec_fn((Seq<char>, Seq<char>)) -> bool {
    |t: (Seq<char>, Seq<char>)| t.0 == name
}

/// The first value of a tag of a file.
pub open spec fn first_value(f: FileEntryModel, name: Seq<char>) -> Option<Seq<char>> {
    let i = first_place(f.tags, 0, tag_named(name));
    if i < f.tags.len() {
        Some(f.tags[i as int].1)
    } else {
        None
    }
}

/// The condition of having a tag.
pub open spec fn has_tag(name: Seq<char>) -> spec_fn(FileEntryModel) -> bool {
    |f: FileEntryModel| first_value(f, name) is Some
}

/// Whether a file has a value for a tag. Having none goes as the empty value.
pub open spec fn agrees(f: FileEntryModel, name: Seq<char>, value: Seq<char>) -> bool {
    match first_value(f, name) {
        Some(v) => v == value,
        None => value.len() == 0,
    }
}

/// A tag across all files: the value on which they agree, or that they differ.
/// A tag that no file has is empty everywhere.
pub open spec fn value_across(files: Seq<FileEntryModel>, name: Seq<char>) -> AggregatedValueModel {
    let i = first_place(files, 0, has_tag(name));
    if i >= files.len() {
        AggregatedValueModel::Consistent(Seq::empty())
    } else {
        let value = first_value(files[i as int], name)->0;
        if forall|k: int| 0 <= k < files.len() ==> agrees(#[trigger] files[k], name, value) {
            AggregatedValueModel::Consistent(value)
        } else {
            AggregatedValueModel::Various
        }
    }
}

/// A tag across all files as a field.
pub open spec fn field_across(files: Seq<FileEntryModel>) -> spec_fn(
    Seq<char>,
) -> AggregatedTagFieldModel {
    |name: Seq<char>|
        AggregatedTagFieldModel {
            name,
            value: value_across(files, name),
            original_value: value_across(files, name),
        }
}

/// The tags that are always shown, in their order.
pub open spec fn core_tags() -> Seq<Seq<char>> {
    crate::screen::list7(
        "track_number"@,
        "title"@,
        "artist"@,
        "album"@,
        "album_artist"@,
        "genre"@,
        "isrc"@,
    )
}

/// The name of a tag.
pub open spec fn tag_name() -> spec_fn((Seq<char>, Seq<char>)) -> Seq<char> {
    |t: (Seq<char>, Seq<char>)| t.0
}

/// The tags of a file.
pub open spec fn file_tags() -> spec_fn(FileEntryModel) -> Seq<(Seq<char>, Seq<char>)> {
    |f: FileEntryModel| f.tags
}

/// The condition of not being shown always.
pub open spec fn beyond_core() -> spec_fn(Seq<char>) -> bool {
    |name: Seq<char>| !core_tags().contains(name)
}

/// The other tags of the files, in alphabetical order.
pub open spec fn other_tags(files: Seq<FileEntryModel>) -> Seq<Seq<char>> {
    in_order(
        chosen(
            distinct(flat(files.map_values(file_tags())).map_values(tag_name())),
            beyond_core(),
        ),
        |a: Seq<char>, b: Seq<char>| String::precedes(a, b),
    )
}

/// The line that creates a tag.
pub open spec fn creating_line() -> AggregatedTagFieldModel {
    AggregatedTagFieldModel {
        name: "New Tag"@,
        value: AggregatedValueModel::Consistent("[Press Enter to create]"@),
        original_value: AggregatedValueModel::Consistent("[Press Enter to create]"@),
    }
}

/// All files as one: the tags that are always shown, the others in alphabetical
/// order, and the line that creates a tag. No files have that line alone.
pub open spec fn aggregated_directory(files: Seq<FileEntryModel>) -> Seq<AggregatedTagFieldModel> {
    if files.len() == 0 {
        seq![creating_line()]
    } else {
        (core_tags() + other_tags(files)).map_values(field_across(files)).push(creating_line())
    }
}

/// The first value of a tag of a file.
fn value_in<'a>(f: &'a FileEntry, name: &str) -> (r: Option<&'a String>)
    ensures
        r is Some <==> first_value(f.deep_view(), name@) is Some,
        r is Some ==> Some(r->0@) == first_value(f.deep_view(), name@),
{
    let tags: &Vec<(String, String)> = &f.tags;
    let ghost s = tags.deep_view();
    let mut i: usize = 0;
    while i < tags.len() && !text::same(tags[i].0.as_str(), name)
        invariant
            i <= tags.len(),
            s == tags.deep_view(),
            first_place(s, 0, tag_named(name@)) == first_place(s, i as nat, tag_named(name@)),
        decreases tags.len() - i,
    {
        i = i + 1;
    }
    if i < tags.len() {
        Some(&tags[i].1)
    } else {
        None
    }
}

/// A tag across all files.
fn aggregate_value(files: &Vec<FileEntry>, name: &str) -> (r: AggregatedValue)
    ensures
        r.deep_view() == value_across(files.deep_view(), name@),
{
    let ghost s = files.deep_view();
    let mut i: usize = 0;
    while i < files.len() && value_in(&files[i], name).is_none()
        invariant
            i <= files.len(),
            s == files.deep_view(),
            first_place(s, 0, has_tag(name@)) == first_place(s, i as nat, has_tag(name@)),
        decreases files.len() - i,
    {
        i = i + 1;
    }
    if i >= files.len() {
        return AggregatedValue::Consistent(String::new());
    }
    let value: String = match value_in(&files[i], name) {
        Some(v) => v.clone(),
        None => String::new(),
    };
    proof {
        assert(has_tag(name@)(s[i as int]));
        assert(value@ == first_value(s[i as int], name@)->0);
    }
    let mut k: usize = 0;
    while k < files.len()
        invariant
            k <= files.len(),
            i < files.len(),
            s == files.deep_view(),
            i == first_place(s, 0, has_tag(name@)),
            value@ == first_value(s[i as int], name@)->0,
            forall|j: int| 0 <= j < k ==> agrees(#[trigger] s[j], name@, value@),
        decreases files.len() - k,
    {
        let same: bool = match value_in(&files[k], name) {
            Some(v) => *v == value,
            None => value.as_str().is_empty(),
        };
        if !same {
            proof {
                assert(!agrees(s[k as int], name@, value@));
            }
            return AggregatedValue::Various;
        }
        k = k + 1;
    }
    AggregatedValue::Consistent(value)
}

/// The tags that are always shown.
fn core_names() -> (r: Vec<String>)
    ensures
        r.deep_view() == core_tags(),
{
    let mut v: Vec<String> = nothing();
    put(&mut v, "track_number".to_owned());
    put(&mut v, "title".to_owned());
    put(&mut v, "artist".to_owned());
    put(&mut v, "album".to_owned());
    put(&mut v, "album_artist".to_owned());
    put(&mut v, "genre".to_owned());
    put(&mut v, "isrc".to_owned());
    v
}

/// The names of all the tags of the files, each once.
fn all_names(files: &Vec<FileEntry>) -> (r: Vec<String>)
    ensures
        r.deep_view() == distinct(
            flat(files.deep_view().map_values(file_tags())).map_values(tag_name()),
        ),
{
    let ghost cols = files.deep_view().map_values(file_tags());
    let ghost mut sofar: Seq<(Seq<char>, Seq<char>)> = Seq::empty();
    let mut names: Vec<String> = nothing();
    proof {
        assert(cols.take(0) =~= Seq::<Seq<(Seq<char>, Seq<char>)>>::empty());
        assert(sofar.map_values(tag_name()) =~= Seq::<Seq<char>>::empty());
    }
    let mut i: usize = 0;
    while i < files.len()
        invariant
            i <= files.len(),
            cols == files.deep_view().map_values(file_tags()),
            sofar == flat(cols.take(i as int)),
            names.deep_view() == distinct(sofar.map_values(tag_name())),
        decreases files.len() - i,
    {
        let ghost base = sofar;
        let tags: &Vec<(String, String)> = &files[i].tags;
        let ghost here = tags.deep_view();
        let mut k: usize = 0;
        proof {
            assert(base + here.take(0) =~= base);
        }
        while k < tags.len()
            invariant
                k <= tags.len(),
                here == tags.deep_view(),
                sofar == base + here.take(k as int),
                names.deep_view() == distinct(sofar.map_values(tag_name())),
            decreases tags.len() - k,
        {
            put_new(&mut names, tags[k].0.clone());
            proof {
                let next = sofar.push(here[k as int]);
                assert(next =~= base + here.take(k as int + 1));
                assert(next.map_values(tag_name()).drop_last() =~= sofar.map_values(tag_name()));
                assert(next.map_values(tag_name()).last() == here[k as int].0);
                sofar = next;
            }
            k = k + 1;
        }
        proof {
            assert(here.take(here.len() as int) =~= here);
            assert(cols.take(i as int + 1).drop_last() =~= cols.take(i as int));
            assert(cols.take(i as int + 1).last() == here);
        }
        i = i + 1;
    }
    proof {
        assert(cols.take(cols.len() as int) =~= cols);
    }
    names
}

/// The line that creates a tag.
fn new_line() -> (r: AggregatedTagField)
    ensures
        r.deep_view() == creating_line(),
{
    AggregatedTagField {
        name: "New Tag".to_owned(),
        value: AggregatedValue::Consistent("[Press Enter to create]".to_owned()),
        original_value: AggregatedValue::Consistent("[Press Enter to create]".to_owned()),
    }
}

/// Looks at all files as one.
pub fn aggregate_tags(files: &Vec<FileEntry>) -> (r: Vec<AggregatedTagField>)
    ensures
        r.deep_view() == aggregated_directory(files.deep_view()),
{
    let mut out: Vec<AggregatedTagField> = nothing();
    if files.len() == 0 {
        put(&mut out, new_line());
        return out;
    }
    let core: Vec<String> = core_names();
    let names: Vec<String> = all_names(files);
    let ghost s = names.deep_view();
    let mut others: Vec<String> = nothing();
    proof {
        lemma_chosen_start(s, beyond_core());
    }
    let mut i: usize = 0;
    while i < names.len()
        invariant
            i <= names.len(),
            core.deep_view() == core_tags(),
            s == names.deep_view(),
            others.deep_view() == chosen(s.take(i as int), beyond_core()),
        decreases names.len() - i,
    {
        proof {
            lemma_chosen_step(s, i as int, beyond_core());
        }
        if !text::among(&core, names[i].as_str()) {
            put(&mut others, names[i].clone());
        }
        i = i + 1;
    }
    proof {
        assert(s.take(s.len() as int) =~= s);
    }
    let mut shown: Vec<String> = core;
    put_all(&mut shown, sorted(others));
    let ghost all = shown.deep_view();
    let mut k: usize = 0;
    while k < shown.len()
        invariant
            k <= shown.len(),
            all == shown.deep_view(),
            out.len() == k,
            forall|j: int|
                0 <= j < k ==> (#[trigger] out[j]).deep_view() == field_across(files.deep_view())(
                    all[j],
                ),
        decreases shown.len() - k,
    {
        let value: AggregatedValue = aggregate_value(files, shown[k].as_str());
        out.push(
            AggregatedTagField {
                name: shown[k].clone(),
                value: value.clone(),
                original_value: value,
            },
        );
        k = k + 1;
    }
    proof {
        assert(out.deep_view() =~= all.map_values(field_across(files.deep_view())));
    }
    put(&mut out, new_line());
    out
}

/// A copy of some aggregates.
fn copy_aggregates(v: &Vec<AggregatedTagField>) -> (r: Vec<AggregatedTagField>)
    ensures
        r.deep_view() == v.deep_view(),
{
    let r: Vec<AggregatedTagField> = v.clone();
    proof {
        assert(r.deep_view() =~= v.deep_view());
    }
    r
}

// ---------------------------------------------------------------------------
// The editor
// ---------------------------------------------------------------------------

/// A change to every file, if a field was given a new value.
pub open spec fn change_of(f: AggregatedTagFieldModel, n: usize) -> DirectoryTagChangeModel {
    DirectoryTagChangeModel {
        field_name: f.name,
        new_value: f.value->Edited_0,
        affected_files: n,
    }
}

impl DirectoryModel {
    /// The field in hand.
    pub open spec fn field_in_hand(self) -> Option<AggregatedTagFieldModel> {
        if self.current_field_idx < self.aggregated_fields.len() {
            Some(self.aggregated_fields[self.current_field_idx as int])
        } else {
            None
        }
    }

    /// Another value for the field in hand.
    pub open spec fn with_value(self, value: AggregatedValueModel) -> Self {
        match self.field_in_hand() {
            Some(f) => DirectoryModel {
                aggregated_fields: self.aggregated_fields.update(
                    self.current_field_idx as int,
                    AggregatedTagFieldModel { value, ..f },
                ),
                ..self
            },
            None => self,
        }
    }

    /// The field in hand taken into the buffer.
    pub open spec fn load(self) -> Self {
        match self.field_in_hand() {
            Some(f) => DirectoryModel { value_buffer: f.value.text(), ..self },
            None => self,
        }
    }

    /// What was typed taken into the field in hand, as a new value for every
    /// file.
    pub open spec fn commit(self) -> Self {
        let taken = if self.field_edit_state == FieldEditState::EditingValue {
            self.with_value(AggregatedValueModel::Edited(self.value_buffer))
        } else {
            self
        };
        DirectoryModel { various_confirm_state: None, ..taken }
    }

    /// What was typed taken in only where something is being typed.
    pub open spec fn commit_if_editing(self) -> Self {
        if self.field_edit_state == FieldEditState::NonEditable {
            self
        } else {
            self.commit()
        }
    }

    /// The field above.
    pub open spec fn moved_up(self) -> Self {
        let m = self.commit_if_editing();
        if m.current_field_idx > 0 {
            let at = (m.current_field_idx - 1) as usize;
            DirectoryModel {
                current_field_idx: at,
                tag_scroll_offset: if at < m.tag_scroll_offset {
                    at
                } else {
                    m.tag_scroll_offset
                },
                ..m
            }.load()
        } else {
            m
        }
    }

    /// The field below.
    pub open spec fn moved_down(self) -> Self {
        let m = self.commit_if_editing();
        if m.current_field_idx + 1 < m.aggregated_fields.len() {
            let at = (m.current_field_idx + 1) as usize;
            DirectoryModel {
                current_field_idx: at,
                tag_scroll_offset: scrolled_down(at, m.tag_scroll_offset, m.tag_visible_height),
                ..m
            }.load()
        } else {
            m
        }
    }

    /// A new tag before the line that creates one, its value being typed.
    pub open spec fn create_tag(self) -> Self {
        let at: usize = if self.aggregated_fields.len() == 0 {
            0
        } else {
            (self.aggregated_fields.len() - 1) as usize
        };
        DirectoryModel {
            aggregated_fields: self.aggregated_fields.insert(
                at as int,
                AggregatedTagFieldModel {
                    name: "new_tag"@,
                    value: AggregatedValueModel::Edited(Seq::empty()),
                    original_value: AggregatedValueModel::Various,
                },
            ),
            current_field_idx: at,
            field_edit_state: FieldEditState::EditingValue,
            value_buffer: Seq::empty(),
            ..self
        }
    }

    /// The answer to Enter. Overwriting differing values takes two of them.
    pub open spec fn enter(self) -> Self {
        match self.field_in_hand() {
            None => self,
            Some(f) => if f.name == "New Tag"@ {
                self.create_tag()
            } else {
                match f.value {
                    AggregatedValueModel::Various => DirectoryModel {
                        various_confirm_state: Some(VariousConfirmState::Confirming),
                        ..self.with_value(AggregatedValueModel::VariousConfirming)
                    },
                    AggregatedValueModel::VariousConfirming => DirectoryModel {
                        various_confirm_state: Some(VariousConfirmState::Editing),
                        field_edit_state: FieldEditState::EditingValue,
                        value_buffer: Seq::empty(),
                        ..self
                    },
                    _ => if self.field_edit_state == FieldEditState::NonEditable {
                        DirectoryModel {
                            field_edit_state: FieldEditState::EditingValue,
                            ..self
                        }.load()
                    } else {
                        DirectoryModel {
                            field_edit_state: FieldEditState::NonEditable,
                            ..self.commit()
                        }
                    },
                }
            },
        }
    }

    /// The answer to Esc. What was typed is dropped, and differing values are
    /// no longer asked about.
    pub open spec fn escape(self) -> (Self, DirectoryTagEditorActionModel) {
        if self.field_edit_state == FieldEditState::NonEditable {
            (self, DirectoryTagEditorActionModel::Exit)
        } else {
            let m = DirectoryModel {
                field_edit_state: FieldEditState::NonEditable,
                various_confirm_state: None,
                ..self
            };
            let back = match m.field_in_hand() {
                Some(f) => if f.value is VariousConfirming {
                    m.with_value(AggregatedValueModel::Various)
                } else {
                    m
                },
                None => m,
            };
            (back.load(), DirectoryTagEditorActionModel::Nothing)
        }
    }

    /// What is being typed emptied, or the field in hand where nothing is.
    pub open spec fn cleared(self) -> Self {
        if self.field_edit_state == FieldEditState::EditingValue {
            DirectoryModel { value_buffer: Seq::empty(), ..self }
        } else {
            self.with_value(AggregatedValueModel::Edited(Seq::empty()))
        }
    }

    /// One more character typed.
    pub open spec fn typed(self, c: char) -> Self {
        if self.field_edit_state == FieldEditState::EditingValue {
            DirectoryModel { value_buffer: self.value_buffer.push(c), ..self }
        } else {
            self
        }
    }

    /// The last character taken back.
    pub open spec fn untyped(self) -> Self {
        if self.field_edit_state == FieldEditState::EditingValue {
            DirectoryModel { value_buffer: without_last(self.value_buffer), ..self }
        } else {
            self
        }
    }

    /// Whether a field differs from the one that stood in its place.
    pub open spec fn differs_at(self, i: int) -> bool {
        self.aggregated_fields[i].name != "New Tag"@ && self.aggregated_fields[i].value
            != self.original_aggregated_fields[i].value
    }

    /// Whether there is anything to save.
    pub open spec fn has_changes(self) -> bool {
        ||| self.aggregated_fields.len() != self.original_aggregated_fields.len()
        ||| exists|i: int| 0 <= i < self.aggregated_fields.len() && #[trigger] self.differs_at(i)
    }

    /// Whether the field at a place makes a change: it was given a new value,
    /// and is new or differs from what stood there.
    pub open spec fn changed_at(self, i: int) -> bool {
        &&& self.aggregated_fields[i].name != "New Tag"@
        &&& self.aggregated_fields[i].value is Edited
        &&& i < self.original_aggregated_fields.len() ==> self.aggregated_fields[i].value
            != self.original_aggregated_fields[i].value
    }

    /// The changes that the first `n` fields make.
    pub open spec fn changes_of_first(self, n: nat) -> Seq<DirectoryTagChangeModel>
        decreases n,
    {
        if n == 0 {
            Seq::empty()
        } else {
            let r = self.changes_of_first((n - 1) as nat);
            if self.changed_at(n - 1) {
                r.push(change_of(self.aggregated_fields[n - 1], self.files.len() as usize))
            } else {
                r
            }
        }
    }

    /// All changes.
    pub open spec fn changes(self) -> Seq<DirectoryTagChangeModel> {
        self.changes_of_first(self.aggregated_fields.len())
    }

    /// The directory beside this one.
    pub open spec fn sibling(self, next: bool) -> Option<Seq<char>> {
        if next && self.current_sibling_idx + 1 < self.sibling_directories.len() {
            Some(self.sibling_directories[self.current_sibling_idx + 1])
        } else if !next && 0 < self.current_sibling_idx
            <= self.sibling_directories.len() {
            Some(self.sibling_directories[self.current_sibling_idx - 1])
        } else {
            None
        }
    }

    /// The same editor at another of the directories.
    pub open spec fn at_sibling(self, i: usize) -> Self {
        DirectoryModel { current_sibling_idx: i, ..self }
    }

    /// The editor after news from the gathering.
    pub open spec fn told(self, message: GatheringMessageModel) -> Self {
        let g = self.gathering_state->0;
        match message {
            GatheringMessageModel::TotalFiles(n) => DirectoryModel {
                gathering_state: Some(GatheringModel { total_files: n, ..g }),
                ..self
            },
            GatheringMessageModel::Processing(i, p) => DirectoryModel {
                gathering_state: Some(
                    GatheringModel { processed_files: i, current_file: Some(p), ..g },
                ),
                ..self
            },
            GatheringMessageModel::FileProcessed { path, tags, .. } => DirectoryModel {
                files: self.files.push(
                    FileEntryModel {
                        path,
                        filename: match paths::name_in(path) {
                            Some(name) => name,
                            None => path,
                        },
                        tags,
                    },
                ),
                ..self
            },
            GatheringMessageModel::FileError { .. } => self,
            GatheringMessageModel::Complete => {
                let files = in_order(self.files, by_path());
                DirectoryModel {
                    files,
                    aggregated_fields: aggregated_directory(files),
                    original_aggregated_fields: aggregated_directory(files),
                    gathering_state: None,
                    ..self
                }
            },
        }
    }

    /// The editor after some news. What follows the end of the gathering is
    /// passed over.
    pub open spec fn told_all(self, messages: Seq<GatheringMessageModel>) -> Self
        decreases messages.len(),
    {
        if messages.len() == 0 || self.gathering_state is None {
            self
        } else {
            self.told(messages[0]).told_all(messages.drop_first())
        }
    }
}

impl DirectoryTagEditorState {
    /// Opens the editor on a directory whose files are being gathered.
    pub fn start_gathering(directory: String, siblings: Vec<String>) -> (r: Self)
        ensures
            r@ == (DirectoryModel {
                files: Seq::empty(),
                aggregated_fields: Seq::empty(),
                original_aggregated_fields: Seq::empty(),
                current_directory: directory@,
                sibling_directories: siblings.deep_view(),
                current_sibling_idx: {
                    let i = first_place(siblings.deep_view(), 0, paths::is_path(directory@));
                    if i < siblings.len() {
                        i as usize
                    } else {
                        0
                    }
                },
                current_field_idx: 0,
                field_edit_state: FieldEditState::NonEditable,
                value_buffer: Seq::empty(),
                various_confirm_state: None,
                gathering_state: Some(
                    GatheringModel {
                        total_files: 0,
                        processed_files: 0,
                        current_file: None,
                        cancelled: false,
                    },
                ),
                focus: DirectoryTagEditorFocus::TagFields,
                tag_scroll_offset: 0,
                tag_visible_height: 10,
                file_scroll_offset: 0,
                file_visible_height: 10,
                selected_file_idx: 0,
            }),
    {
        let ghost s = siblings.deep_view();
        let mut i: usize = 0;
        while i < siblings.len() && !paths::same_path(
            siblings[i].as_str(),
            directory.as_str(),
        )
            invariant
                i <= siblings.len(),
                s == siblings.deep_view(),
                first_place(s, 0, paths::is_path(directory@)) == first_place(
                    s,
                    i as nat,
                    paths::is_path(directory@),
                ),
            decreases siblings.len() - i,
        {
            i = i + 1;
        }
        let at: usize = if i < siblings.len() {
            i
        } else {
            0
        };
        DirectoryTagEditorState {
            files: nothing(),
            aggregated_fields: nothing(),
            original_aggregated_fields: nothing(),
            current_directory: directory,
            sibling_directories: siblings,
            current_sibling_idx: at,
            current_field_idx: 0,
            field_edit_state: FieldEditState::NonEditable,
            value_buffer: String::new(),
            various_confirm_state: None,
            gathering_state: Some(
                GatheringState {
                    total_files: 0,
                    processed_files: 0,
                    current_file: None,
                    cancelled: false,
                },
            ),
            focus: DirectoryTagEditorFocus::TagFields,
            tag_scroll_offset: 0,
            tag_visible_height: 10,
            file_scroll_offset: 0,
            file_visible_height: 10,
            selected_file_idx: 0,
        }
    }

    /// Takes one piece of news from the gathering.
    fn tell(&mut self, message: GatheringMessage)
        requires
            old(self)@.gathering_state is Some,
        ensures
            final(self)@ == old(self)@.told(message.deep_view()),
    {
        match message {
            GatheringMessage::TotalFiles(n) => {
                if let Some(g) = self.gathering_state.take() {
                    self.gathering_state = Some(
                        GatheringState {
                            total_files: n,
                            processed_files: g.processed_files,
                            current_file: g.current_file,
                            cancelled: g.cancelled,
                        },
                    );
                }
            },
            GatheringMessage::Processing(i, p) => {
                if let Some(g) = self.gathering_state.take() {
                    self.gathering_state = Some(
                        GatheringState {
                            total_files: g.total_files,
                            processed_files: i,
                            current_file: Some(p),
                            cancelled: g.cancelled,
                        },
                    );
                }
            },
            GatheringMessage::FileProcessed { path, tags, .. } => {
                let filename: String = paths::name_or(path.as_str(), path.as_str());
                put(&mut self.files, FileEntry { path, filename, tags });
            },
            GatheringMessage::FileError { .. } => {},
            GatheringMessage::Complete => {
                let mut files: Vec<FileEntry> = nothing();
                put_all(&mut files, self.take_files());
                proof {
                    assert(Seq::<FileEntryModel>::empty() + old(self)@.files
                        =~= old(self)@.files);
                }
                self.files = sorted(files);
                self.aggregated_fields = aggregate_tags(&self.files);
                self.original_aggregated_fields = copy_aggregates(&self.aggregated_fields);
                self.gathering_state = None;
            },
        }
    }

    /// Takes the files out.
    fn take_files(&mut self) -> (r: Vec<FileEntry>)
        ensures
            r.deep_view() == old(self)@.files,
            final(self)@ == (DirectoryModel { files: Seq::empty(), ..old(self)@ }),
    {
        let ghost before = self.files.deep_view();
        let r: Vec<FileEntry> = self.files.split_off(0);
        proof {
            assert(r.deep_view() =~= before);
            assert(self.files.deep_view() =~= Seq::<FileEntryModel>::empty());
        }
        r
    }

    /// Takes all the news that has come in. Returns whether the gathering is
    /// complete.
    pub fn poll_gathering(&mut self, messages: Vec<GatheringMessage>) -> (r: bool)
        ensures
            final(self)@ == old(self)@.told_all(messages.deep_view()),
            r == (final(self)@.gathering_state is None),
    {
        let ghost start = self@;
        let ghost all = messages.deep_view();
        let mut pending: Vec<GatheringMessage> = messages;
        proof {
            assert(all.skip(0) =~= all);
        }
        while pending.len() > 0 && self.gathering_state.is_some()
            invariant
                self@.told_all(pending.deep_view()) == start.told_all(all),
            decreases pending.len(),
        {
            let ghost before = pending.deep_view();
            let ghost now = self@;
            let message: GatheringMessage = pending.remove(0);
            proof {
                assert(pending.deep_view() =~= before.drop_first());
            }
            self.tell(message);
        }
        self.gathering_state.is_none()
    }

    /// Calls the gathering off.
    pub fn cancel_gathering(&mut self)
        ensures
            final(self)@ == (match old(self)@.gathering_state {
                Some(g) => DirectoryModel {
                    gathering_state: Some(GatheringModel { cancelled: true, ..g }),
                    ..old(self)@
                },
                None => old(self)@,
            }),
    {
        if let Some(g) = self.gathering_state.take() {
            self.gathering_state = Some(
                GatheringState {
                    total_files: g.total_files,
                    processed_files: g.processed_files,
                    current_file: g.current_file,
                    cancelled: true,
                },
            );
        }
    }

    /// Whether the gathering goes on.
    pub fn is_gathering(&self) -> (r: bool)
        ensures
            r == (self@.gathering_state is Some),
    {
        self.gathering_state.is_some()
    }

    /// Gives the field in hand another value.
    fn set_value(&mut self, value: AggregatedValue)
        ensures
            final(self)@ == old(self)@.with_value(value.deep_view()),
    {
        if self.current_field_idx < self.aggregated_fields.len() {
            let f: AggregatedTagField = self.aggregated_fields[self.current_field_idx].clone();
            set_item(
                &mut self.aggregated_fields,
                self.current_field_idx,
                AggregatedTagField { name: f.name, value, original_value: f.original_value },
            );
        }
    }

    /// Takes the field in hand into the buffer.
    pub fn load_buffer(&mut self)
        ensures
            final(self)@ == old(self)@.load(),
    {
        if self.current_field_idx < self.aggregated_fields.len() {
            self.value_buffer = self.aggregated_fields[self.current_field_idx].value.typed();
        }
    }

    /// Takes what was typed into the field in hand.
    pub fn commit_current_buffer(&mut self)
        ensures
            final(self)@ == old(self)@.commit(),
    {
        if self.field_edit_state == FieldEditState::EditingValue {
            let value: String = self.value_buffer.clone();
            self.set_value(AggregatedValue::Edited(value));
        }
        self.various_confirm_state = None;
    }

    /// Moves to the field above.
    pub fn move_up(&mut self)
        ensures
            final(self)@ == old(self)@.moved_up(),
    {
        if self.field_edit_state != FieldEditState::NonEditable {
            self.commit_current_buffer();
        }
        if self.current_field_idx > 0 {
            self.current_field_idx = self.current_field_idx - 1;
            if self.current_field_idx < self.tag_scroll_offset {
                self.tag_scroll_offset = self.current_field_idx;
            }
            self.load_buffer();
        }
    }

    /// Moves to the field below.
    pub fn move_down(&mut self)
        ensures
            final(self)@ == old(self)@.moved_down(),
    {
        if self.field_edit_state != FieldEditState::NonEditable {
            self.commit_current_buffer();
        }
        if self.aggregated_fields.len() > 0 && self.current_field_idx < self.aggregated_fields.len()
            - 1 {
            self.current_field_idx = self.current_field_idx + 1;
            self.tag_scroll_offset = scroll_down(
                self.current_field_idx,
                self.tag_scroll_offset,
                self.tag_visible_height,
            );
            self.load_buffer();
        }
    }

    /// Answers Enter.
    pub fn handle_enter(&mut self) -> (r: DirectoryTagEditorAction)
        ensures
            final(self)@ == old(self)@.enter(),
            r.deep_view() == DirectoryTagEditorActionModel::Nothing,
    {
        if self.current_field_idx >= self.aggregated_fields.len() {
            return DirectoryTagEditorAction::Nothing;
        }
        let f: AggregatedTagField = self.aggregated_fields[self.current_field_idx].clone();
        if text::same(f.name.as_str(), "New Tag") {
            self.create_new_tag();
            return DirectoryTagEditorAction::Nothing;
        }
        match f.value {
            AggregatedValue::Various => {
                self.set_value(AggregatedValue::VariousConfirming);
                self.various_confirm_state = Some(VariousConfirmState::Confirming);
            },
            AggregatedValue::VariousConfirming => {
                self.various_confirm_state = Some(VariousConfirmState::Editing);
                self.field_edit_state = FieldEditState::EditingValue;
                self.value_buffer.clear();
            },
            _ => {
                if self.field_edit_state == FieldEditState::NonEditable {
                    self.field_edit_state = FieldEditState::EditingValue;
                    self.load_buffer();
                } else {
                    self.commit_current_buffer();
                    self.field_edit_state = FieldEditState::NonEditable;
                }
            },
        }
        DirectoryTagEditorAction::Nothing
    }

    fn create_new_tag(&mut self)
        ensures
            final(self)@ == old(self)@.create_tag(),
    {
        let at: usize = if self.aggregated_fields.len() == 0 {
            0
        } else {
            self.aggregated_fields.len() - 1
        };
        insert_item(
            &mut self.aggregated_fields,
            at,
            AggregatedTagField {
                name: "new_tag".to_owned(),
                value: AggregatedValue::Edited(String::new()),
                original_value: AggregatedValue::Various,
            },
        );
        self.current_field_idx = at;
        self.field_edit_state = FieldEditState::EditingValue;
        self.value_buffer.clear();
    }

    /// Types one more character.
    pub fn insert_char(&mut self, c: char)
        ensures
            final(self)@ == old(self)@.typed(c),
    {
        if self.field_edit_state == FieldEditState::EditingValue {
            self.value_buffer.push(c);
        }
    }

    /// Takes the last character back.
    pub fn delete_char(&mut self)
        ensures
            final(self)@ == old(self)@.untyped(),
    {
        if self.field_edit_state == FieldEditState::EditingValue {
            let _ = self.value_buffer.pop();
        }
    }

    /// Answers Esc.
    pub fn handle_escape(&mut self) -> (r: DirectoryTagEditorAction)
        ensures
            (final(self)@, r.deep_view()) == old(self)@.escape(),
    {
        if self.field_edit_state != FieldEditState::NonEditable {
            self.field_edit_state = FieldEditState::NonEditable;
            self.various_confirm_state = None;
            let confirming: bool = if self.current_field_idx < self.aggregated_fields.len() {
                match self.aggregated_fields[self.current_field_idx].value {
                    AggregatedValue::VariousConfirming => true,
                    _ => false,
                }
            } else {
                false
            };
            if confirming {
                self.set_value(AggregatedValue::Various);
            }
            self.load_buffer();
            DirectoryTagEditorAction::Nothing
        } else {
            DirectoryTagEditorAction::Exit
        }
    }

    /// Empties what is being typed, or the field in hand where nothing is.
    pub fn clear_current_field(&mut self)
        ensures
            final(self)@ == old(self)@.cleared(),
    {
        if self.field_edit_state == FieldEditState::EditingValue {
            self.value_buffer.clear();
        } else {
            self.set_value(AggregatedValue::Edited(String::new()));
        }
    }

    /// Whether there is anything to save.
    pub fn has_changes(&self) -> (r: bool)
        ensures
            r == self@.has_changes(),
    {
        if self.aggregated_fields.len() != self.original_aggregated_fields.len() {
            return true;
        }
        let mut i: usize = 0;
        while i < self.aggregated_fields.len()
            invariant
                i <= self.aggregated_fields.len(),
                self.aggregated_fields.len() == self.original_aggregated_fields.len(),
                forall|j: int| 0 <= j < i ==> !#[trigger] self@.differs_at(j),
            decreases self.aggregated_fields.len() - i,
        {
            if !text::same(self.aggregated_fields[i].name.as_str(), "New Tag")
                && !self.aggregated_fields[i].value.same(
                &self.original_aggregated_fields[i].value,
            ) {
                proof {
                    assert(self@.differs_at(i as int));
                }
                return true;
            }
            i = i + 1;
        }
        false
    }

    /// The changes to every file.
    pub fn compute_changes(&self) -> (r: Vec<DirectoryTagChange>)
        ensures
            r.deep_view() == self@.changes(),
    {
        let mut changes: Vec<DirectoryTagChange> = nothing();
        let mut i: usize = 0;
        while i < self.aggregated_fields.len()
            invariant
                i <= self.aggregated_fields.len(),
                changes.deep_view() == self@.changes_of_first(i as nat),
            decreases self.aggregated_fields.len() - i,
        {
            let f: &AggregatedTagField = &self.aggregated_fields[i];
            let differs: bool = if i < self.original_aggregated_fields.len() {
                !f.value.same(&self.original_aggregated_fields[i].value)
            } else {
                true
            };
            if !text::same(f.name.as_str(), "New Tag") && differs {
                if let AggregatedValue::Edited(value) = &f.value {
                    put(
                        &mut changes,
                        DirectoryTagChange {
                            field_name: f.name.clone(),
                            new_value: value.clone(),
                            affected_files: self.files.len(),
                        },
                    );
                }
            }
            i = i + 1;
        }
        changes
    }

    /// The directory beside this one, if there is one that way.
    pub fn switch_to_sibling(&self, next: bool) -> (r: Option<String>)
        requires
            next || self@.current_sibling_idx <= self@.sibling_directories.len()
                || self@.sibling_directories.len() == 0,
        ensures
            r.deep_view() == self@.sibling(next),
    {
        if self.sibling_directories.len() == 0 {
            return None;
        }
        if next {
            if self.current_sibling_idx < self.sibling_directories.len() - 1 {
                Some(self.sibling_directories[self.current_sibling_idx + 1].clone())
            } else {
                None
            }
        } else if self.current_sibling_idx > 0 {
            Some(self.sibling_directories[self.current_sibling_idx - 1].clone())
        } else {
            None
        }
    }
}

// ---------------------------------------------------------------------------
// Laws
// ---------------------------------------------------------------------------

/// Differing values are not typed over by one Enter: the first asks, and only
/// the second starts typing, from nothing.
pub proof fn law_differing_values_take_two_enters(m: DirectoryModel)
    requires
        m.field_in_hand() is Some,
        m.field_in_hand()->0.name != "New Tag"@,
        m.field_in_hand()->0.value is Various,
    ensures
        m.enter().field_edit_state == m.field_edit_state,
        m.enter().field_in_hand()->0.value is VariousConfirming,
        m.enter().enter().field_edit_state == FieldEditState::EditingValue,
        m.enter().enter().value_buffer == Seq::<char>::empty(),
{
}

/// Esc after the second Enter gives differing values back as they were.
pub proof fn law_escape_gives_differing_values_back(m: DirectoryModel)
    requires
        m.field_in_hand() is Some,
        m.field_in_hand()->0.name != "New Tag"@,
        m.field_in_hand()->0.value is Various,
    ensures
        m.enter().enter().escape().0.aggregated_fields == m.aggregated_fields,
        m.enter().enter().escape().1 is Nothing,
{
    assert(m.enter().enter().escape().0.aggregated_fields =~= m.aggregated_fields);
}

/// A directory whose gathering has just ended has nothing to save.
pub proof fn law_gathered_is_unchanged(m: DirectoryModel)
    requires
        m.gathering_state is Some,
    ensures
        !m.told(GatheringMessageModel::Complete).has_changes(),
        m.told(GatheringMessageModel::Complete).changes() == Seq::<
            DirectoryTagChangeModel,
        >::empty(),
{
    let d = m.told(GatheringMessageModel::Complete);
    lemma_unchanged(d, d.aggregated_fields.len());
}

/// The files that some news tells of, in order. A file that could not be read is
/// none of them.
pub open spec fn files_told(messages: Seq<GatheringMessageModel>) -> Seq<FileEntryModel>
    decreases messages.len(),
{
    if messages.len() == 0 {
        Seq::empty()
    } else {
        (match messages[0] {
            GatheringMessageModel::FileProcessed { path, tags, .. } => seq![
                FileEntryModel {
                    path,
                    filename: match paths::name_in(path) {
                        Some(name) => name,
                        None => path,
                    },
                    tags,
                },
            ],
            _ => Seq::empty(),
        }) + files_told(messages.drop_first())
    }
}

proof fn lemma_told_until_complete(
    m: DirectoryModel,
    news: Seq<GatheringMessageModel>,
    rest: Seq<GatheringMessageModel>,
)
    requires
        m.gathering_state is Some,
        forall|i: int| 0 <= i < news.len() ==> !(#[trigger] news[i] is Complete),
    ensures
        m.told_all(news).gathering_state is Some,
        m.told_all(news).files == m.files + files_told(news),
        m.told_all(news + rest) == m.told_all(news).told_all(rest),
    decreases news.len(),
{
    if news.len() == 0 {
        assert(news + rest =~= rest);
        assert(m.files + files_told(news) =~= m.files);
    } else {
        assert(!(news[0] is Complete));
        let next = m.told(news[0]);
        let more = news.drop_first();
        assert forall|i: int| 0 <= i < more.len() implies !(#[trigger] more[i] is Complete) by {
            assert(more[i] == news[i + 1]);
        }
        lemma_told_until_complete(next, more, rest);
        assert((news + rest).drop_first() =~= more + rest);
        assert(m.told_all(news).files =~= m.files + files_told(news));
    }
}

/// The gathering ends with the news that it is complete, and not before. Then
/// the files are those that were there and those that were read, in the order of
/// the components of their paths, and the fields are taken from all of them.
/// What comes after is passed over.
pub proof fn law_gathering_ends_when_complete(
    m: DirectoryModel,
    news: Seq<GatheringMessageModel>,
    rest: Seq<GatheringMessageModel>,
)
    requires
        m.gathering_state is Some,
        forall|i: int| 0 <= i < news.len() ==> !(#[trigger] news[i] is Complete),
    ensures
        m.told_all(news).gathering_state is Some,
        ({
            let d = m.told_all(news + (seq![GatheringMessageModel::Complete] + rest));
            &&& d.gathering_state is None
            &&& crate::ordering::is_ordered(d.files, by_path())
            &&& d.files.to_multiset() == (m.files + files_told(news)).to_multiset()
            &&& d.aggregated_fields == aggregated_directory(d.files)
            &&& d.original_aggregated_fields == d.aggregated_fields
        }),
{
    let end = seq![GatheringMessageModel::Complete] + rest;
    lemma_told_until_complete(m, news, end);
    let before = m.told_all(news);
    let done = before.told(GatheringMessageModel::Complete);
    assert(end[0] == GatheringMessageModel::Complete);
    assert(done.told_all(end.drop_first()) == done);
    assert(before.told_all(end) == done);
    assert forall|a: FileEntryModel| !#[trigger] by_path()(a, a) by {
        paths::law_path_order(a.path, a.path, a.path);
    }
    assert forall|a: FileEntryModel, b: FileEntryModel, c: FileEntryModel| #[trigger]
        by_path()(a, b) && #[trigger] by_path()(b, c) implies by_path()(a, c) by {
        paths::law_path_order(a.path, b.path, c.path);
    }
    assert forall|a: FileEntryModel, b: FileEntryModel, c: FileEntryModel|
        !#[trigger] by_path()(a, b) && !#[trigger] by_path()(b, c) implies !by_path()(a, c) by {
        paths::lemma_not_before(a.path, b.path, c.path);
    }
    crate::ordering::law_in_order(before.files, by_path());
}

/// The directories of a listing stand in the order of their components.
pub proof fn law_siblings_in_order(entries: Seq<(Seq<char>, bool)>)
    ensures
        crate::ordering::is_ordered(directories_in(entries), paths::by_components()),
{
    paths::law_paths_rank();
    crate::ordering::law_in_order(
        crate::lists::picked(entries, plain_directory(), entry_path()),
        paths::by_components(),
    );
}

proof fn lemma_unchanged(m: DirectoryModel, n: nat)
    requires
        m.aggregated_fields == m.original_aggregated_fields,
        n <= m.aggregated_fields.len(),
    ensures
        m.changes_of_first(n) == Seq::<DirectoryTagChangeModel>::empty(),
    decreases n,
{
    if n > 0 {
        lemma_unchanged(m, (n - 1) as nat);
    }
}

/// Changes to save are changes.
pub proof fn law_changes_are_changes(m: DirectoryModel)
    requires
        m.changes().len() > 0,
    ensures
        m.has_changes(),
{
    if !m.has_changes() {
        lemma_no_differences(m, m.aggregated_fields.len());
    }
}

proof fn lemma_no_differences(m: DirectoryModel, n: nat)
    requires
        !m.has_changes(),
        n <= m.aggregated_fields.len(),
    ensures
        m.changes_of_first(n) == Seq::<DirectoryTagChangeModel>::empty(),
    decreases n,
{
    if n > 0 {
        lemma_no_differences(m, (n - 1) as nat);
        assert(!m.differs_at(n - 1));
    }
}

/// Going to the next directory and back comes to the same one.
pub proof fn law_sibling_there_and_back(m: DirectoryModel)
    requires
        m.sibling(true) is Some,
        m.sibling_directories.len() <= usize::MAX,
    ensures
        m.at_sibling((m.current_sibling_idx + 1) as usize).sibling(false) == Some(m.sibling_directories[m.current_sibling_idx as int]),
{
}

} // verus!
