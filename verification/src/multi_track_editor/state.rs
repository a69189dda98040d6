//! The state of the editor, and how it answers keys.

use vstd::prelude::*;

use crate::corpus::{Track, TrackModel};
use crate::input::{KeyCode, KeyEvent};
use crate::lists::{insert_item, set_item};
use crate::multi_track_editor::fields::{change_keys, changes_between, compute_changes, fields_of_track, group_common_changes, group_of, lone, shared, single_of, track_to_tag_fields, DuplicateGroupInfo, DuplicateGroupModel, FieldEditState, FieldModel, GroupedChange, GroupedChangeModel, TagChange, TagChangeModel, TagField};
use crate::lists::picked;
use crate::screen::nothing;
use crate::tag_editor::model::without_last;
use crate::text;

verus! {

/// The editor of several tracks.
#[derive(Debug)]
pub struct TagEditorState {
    /// The tracks
    pub tracks: Vec<Track>,
    /// The tags of each track
    pub tag_fields: Vec<Vec<TagField>>,
    /// The tags of each track as they were
    pub original_tag_fields: Vec<Vec<TagField>>,
    /// The track in hand
    pub current_track_idx: usize,
    /// The field in hand
    pub current_field_idx: usize,
    /// Whether and what of the field is being typed
    pub field_edit_state: FieldEditState,
    /// The name as typed
    pub name_buffer: String,
    /// The value as typed
    pub value_buffer: String,
    /// The name before typing
    pub original_name: String,
    /// The value before typing
    pub original_value: String,
    /// The groups of duplicates that are worked through
    pub duplicate_groups: Vec<DuplicateGroupInfo>,
    /// The group in hand
    pub current_group_idx: Option<usize>,
    /// Whether the value has the focus, not the name
    pub focus_on_value: bool,
}

/// The model of a [`TagEditorState`].
pub struct TrackEditorModel {
    pub tracks: Seq<TrackModel>,
    pub tag_fields: Seq<Seq<FieldModel>>,
    pub original_tag_fields: Seq<Seq<FieldModel>>,
    pub current_track_idx: usize,
    pub current_field_idx: usize,
    pub field_edit_state: FieldEditState,
    pub name_buffer: Seq<char>,
    pub value_buffer: Seq<char>,
    pub original_name: Seq<char>,
    pub original_value: Seq<char>,
    pub duplicate_groups: Seq<DuplicateGroupModel>,
    pub current_group_idx: Option<usize>,
    pub focus_on_value: bool,
}

impl View for TagEditorState {
    type V = TrackEditorModel;

    open spec fn view(&self) -> TrackEditorModel {
        TrackEditorModel {
            tracks: self.tracks.deep_view(),
            tag_fields: self.tag_fields.deep_view(),
            original_tag_fields: self.original_tag_fields.deep_view(),
            current_track_idx: self.current_track_idx,
            current_field_idx: self.current_field_idx,
            field_edit_state: self.field_edit_state,
            name_buffer: self.name_buffer@,
            value_buffer: self.value_buffer@,
            original_name: self.original_name@,
            original_value: self.original_value@,
            duplicate_groups: self.duplicate_groups.deep_view(),
            current_group_idx: self.current_group_idx,
            focus_on_value: self.focus_on_value,
        }
    }
}

/// The modals of the editor.
#[derive(Debug)]
pub enum TagEditorModal {
    /// Whether to save, behind the last track
    SaveConfirmation {
        /// Save all, save all and go on, or return
        selected_button: usize,
    },
    /// The changes before they are saved
    ChangePreview {
        grouped_changes: Vec<GroupedChange>,
        single_changes: Vec<TagChange>,
        scroll_offset: usize,
        save_and_next: bool,
    },
}

/// What the editor asks of the view around it.
#[derive(Debug)]
pub enum TagEditorAction {
    /// Nothing
    Nothing,
    /// Show a modal
    ShowModal(TagEditorModal),
    /// Save all changes and close
    SaveAll,
    /// Save and go on to the next group
    SaveAndNext,
    /// Close without saving
    Exit,
    /// Show a message
    StatusMessage(String),
}

/// The model of a [`TagEditorModal`].
pub enum ModalModel {
    SaveConfirmation { selected_button: usize },
    ChangePreview {
        grouped_changes: Seq<GroupedChangeModel>,
        single_changes: Seq<TagChangeModel>,
        scroll_offset: usize,
        save_and_next: bool,
    },
}

impl DeepView for TagEditorModal {
    type V = ModalModel;

    open spec fn deep_view(&self) -> ModalModel {
        match self {
            TagEditorModal::SaveConfirmation { selected_button } => ModalModel::SaveConfirmation {
                selected_button: *selected_button,
            },
            TagEditorModal::ChangePreview {
                grouped_changes,
                single_changes,
                scroll_offset,
                save_and_next,
            } => ModalModel::ChangePreview {
                grouped_changes: grouped_changes.deep_view(),
                single_changes: single_changes.deep_view(),
                scroll_offset: *scroll_offset,
                save_and_next: *save_and_next,
            },
        }
    }
}

/// The model of a [`TagEditorAction`].
pub enum TrackEditorAnswer {
    Nothing,
    ShowModal(ModalModel),
    SaveAll,
    SaveAndNext,
    Exit,
    StatusMessage(Seq<char>),
}

impl DeepView for TagEditorAction {
    type V = TrackEditorAnswer;

    open spec fn deep_view(&self) -> TrackEditorAnswer {
        match self {
            TagEditorAction::Nothing => TrackEditorAnswer::Nothing,
            TagEditorAction::ShowModal(modal) => TrackEditorAnswer::ShowModal(modal.deep_view()),
            TagEditorAction::SaveAll => TrackEditorAnswer::SaveAll,
            TagEditorAction::SaveAndNext => TrackEditorAnswer::SaveAndNext,
            TagEditorAction::Exit => TrackEditorAnswer::Exit,
            TagEditorAction::StatusMessage(s) => TrackEditorAnswer::StatusMessage(s@),
        }
    }
}

/// The question whether to save, at its first button.
pub open spec fn ask_to_save() -> TrackEditorAnswer {
    TrackEditorAnswer::ShowModal(ModalModel::SaveConfirmation { selected_button: 0 })
}

/// A copy of the fields of one track.
pub fn copy_fields(v: &Vec<TagField>) -> (r: Vec<TagField>)
    ensures
        r.deep_view() == v.deep_view(),
{
    let r: Vec<TagField> = v.clone();
    proof {
        assert(r.deep_view() =~= v.deep_view());
    }
    r
}

/// A copy of the fields of all tracks.
pub fn copy_all_fields(v: &Vec<Vec<TagField>>) -> (r: Vec<Vec<TagField>>)
    ensures
        r.deep_view() == v.deep_view(),
{
    let mut out: Vec<Vec<TagField>> = Vec::new();
    for i in 0..v.len()
        invariant
            out.len() == i,
            forall|j: int| 0 <= j < i ==> (#[trigger] out[j]).deep_view() == v[j].deep_view(),
    {
        out.push(copy_fields(&v[i]));
    }
    proof {
        assert(out.deep_view() =~= v.deep_view());
    }
    out
}

/// The fields of some tracks, from the tags that were read from their files.
pub open spec fn fields_of_tracks(
    tracks: Seq<TrackModel>,
    read: Seq<Option<Seq<(Seq<char>, Seq<char>)>>>,
) -> Seq<Seq<FieldModel>> {
    Seq::new(tracks.len(), |i: int| fields_of_track(tracks[i], read[i]))
}

/// The editor as it opens.
pub open spec fn opened(
    tracks: Seq<TrackModel>,
    groups: Seq<DuplicateGroupModel>,
    group: Option<usize>,
    read: Seq<Option<Seq<(Seq<char>, Seq<char>)>>>,
) -> TrackEditorModel {
    TrackEditorModel {
        tracks,
        tag_fields: fields_of_tracks(tracks, read),
        original_tag_fields: fields_of_tracks(tracks, read),
        current_track_idx: 0,
        current_field_idx: 0,
        field_edit_state: FieldEditState::NonEditable,
        name_buffer: Seq::empty(),
        value_buffer: Seq::empty(),
        original_name: Seq::empty(),
        original_value: Seq::empty(),
        duplicate_groups: groups,
        current_group_idx: group,
        focus_on_value: true,
    }
}

/// Whether a value is filled into a field: it bears the name and is not the
/// track's own.
pub open spec fn takes(f: FieldModel, name: Seq<char>) -> bool {
    f.name == name && !f.is_unique_per_track
}

/// A field with the value filled in where it takes it.
pub open spec fn filling(name: Seq<char>, value: Seq<char>) -> spec_fn(FieldModel) -> FieldModel {
    |f: FieldModel|
        if takes(f, name) {
            FieldModel { value, ..f }
        } else {
            f
        }
}

/// The fields of a track with the value filled in.
pub open spec fn filling_track(name: Seq<char>, value: Seq<char>) -> spec_fn(
    Seq<FieldModel>,
) -> Seq<FieldModel> {
    |fields: Seq<FieldModel>| fields.map_values(filling(name, value))
}

impl TrackEditorModel {
    /// The fields of the track in hand.
    pub open spec fn fields_in_hand(self) -> Option<Seq<FieldModel>> {
        if self.current_track_idx < self.tag_fields.len() {
            Some(self.tag_fields[self.current_track_idx as int])
        } else {
            None
        }
    }

    /// The field in hand.
    pub open spec fn field_in_hand(self) -> Option<FieldModel> {
        match self.fields_in_hand() {
            Some(f) => if self.current_field_idx < f.len() {
                Some(f[self.current_field_idx as int])
            } else {
                None
            },
            None => None,
        }
    }

    /// Other fields for the track in hand.
    pub open spec fn with_fields(self, fields: Seq<FieldModel>) -> Self {
        TrackEditorModel {
            tag_fields: self.tag_fields.update(self.current_track_idx as int, fields),
            ..self
        }
    }

    /// Another field in place of the one in hand.
    pub open spec fn with_field(self, field: FieldModel) -> Self {
        self.with_fields(
            self.tag_fields[self.current_track_idx as int].update(
                self.current_field_idx as int,
                field,
            ),
        )
    }

    /// The field in hand taken into the buffers.
    pub open spec fn load(self) -> Self {
        match self.field_in_hand() {
            Some(f) => TrackEditorModel {
                name_buffer: f.name,
                value_buffer: f.value,
                original_name: f.name,
                original_value: f.value,
                ..self
            },
            None => self,
        }
    }

    /// What was typed taken into the field in hand.
    pub open spec fn commit(self) -> Self {
        match self.field_in_hand() {
            Some(f) => match self.field_edit_state {
                FieldEditState::EditingName => self.with_field(
                    FieldModel { name: self.name_buffer, ..f },
                ),
                FieldEditState::EditingValue => self.with_field(
                    FieldModel { value: self.value_buffer, ..f },
                ),
                FieldEditState::NonEditable => self,
            },
            None => self,
        }
    }

    /// Another state of typing.
    pub open spec fn editing(self, state: FieldEditState) -> Self {
        TrackEditorModel { field_edit_state: state, ..self }
    }

    /// The field above.
    pub open spec fn moved_up(self) -> Self {
        let m = self.commit();
        if m.current_field_idx > 0 {
            TrackEditorModel { current_field_idx: (m.current_field_idx - 1) as usize, ..m }.load()
        } else {
            m
        }
    }

    /// The field below.
    pub open spec fn moved_down(self) -> Self {
        let m = self.commit();
        let n = match m.fields_in_hand() {
            Some(f) => f.len(),
            None => 0,
        };
        if m.current_field_idx + 1 < n {
            TrackEditorModel { current_field_idx: (m.current_field_idx + 1) as usize, ..m }.load()
        } else {
            m
        }
    }

    /// Another track, at its first field.
    pub open spec fn at_track(self, i: usize) -> Self {
        TrackEditorModel { current_track_idx: i, current_field_idx: 0, ..self }.load()
    }

    /// The next track, and whether there is none.
    pub open spec fn next(self) -> (Self, bool) {
        let m = self.commit().editing(FieldEditState::NonEditable);
        if m.current_track_idx + 1 < m.tracks.len() {
            (m.at_track((m.current_track_idx + 1) as usize), false)
        } else {
            (m, true)
        }
    }

    /// The previous track.
    pub open spec fn prev(self) -> Self {
        let m = self.commit().editing(FieldEditState::NonEditable);
        if m.current_track_idx > 0 {
            m.at_track((m.current_track_idx - 1) as usize)
        } else {
            m
        }
    }

    /// A new tag before the line that creates one, its name being typed.
    pub open spec fn create_tag(self) -> Self {
        let made = match self.fields_in_hand() {
            Some(f) => {
                let at: usize = if f.len() == 0 {
                    0
                } else {
                    (f.len() - 1) as usize
                };
                TrackEditorModel {
                    current_field_idx: at,
                    ..self.with_fields(
                        f.insert(
                            at as int,
                            FieldModel {
                                name: "new_tag"@,
                                value: Seq::empty(),
                                editable: true,
                                is_unique_per_track: false,
                            },
                        ),
                    )
                }
            },
            None => self,
        };
        TrackEditorModel {
            field_edit_state: FieldEditState::EditingName,
            name_buffer: "new_tag"@,
            value_buffer: Seq::empty(),
            focus_on_value: false,
            ..made
        }
    }

    /// The answer to Enter.
    pub open spec fn enter(self) -> Self {
        match self.field_in_hand() {
            None => self,
            Some(f) => if f.name == "New Tag"@ {
                self.create_tag()
            } else if self.field_edit_state == FieldEditState::NonEditable {
                self.editing(
                    if self.focus_on_value {
                        FieldEditState::EditingValue
                    } else {
                        FieldEditState::EditingName
                    },
                ).load()
            } else {
                self.commit().editing(FieldEditState::NonEditable)
            },
        }
    }

    /// Whether the value in hand can be filled into all tracks.
    pub open spec fn can_fill(self) -> bool {
        match self.field_in_hand() {
            Some(f) => !f.is_unique_per_track && f.value.len() != 0 && f.name != "New Tag"@,
            None => false,
        }
    }

    /// The value in hand filled into all tracks.
    pub open spec fn filled(self) -> Self {
        if self.can_fill() {
            let f = self.field_in_hand()->0;
            TrackEditorModel {
                tag_fields: self.tag_fields.map_values(filling_track(f.name, f.value)),
                ..self
            }
        } else {
            self
        }
    }

    /// What is being typed emptied, or the value in hand where nothing is.
    pub open spec fn cleared(self) -> Self {
        match self.field_edit_state {
            FieldEditState::EditingName => TrackEditorModel { name_buffer: Seq::empty(), ..self },
            FieldEditState::EditingValue => TrackEditorModel { value_buffer: Seq::empty(), ..self },
            FieldEditState::NonEditable => match self.field_in_hand() {
                Some(f) => self.with_field(FieldModel { value: Seq::empty(), ..f }),
                None => self,
            },
        }
    }

    /// One more character typed.
    pub open spec fn typed(self, c: char) -> Self {
        match self.field_edit_state {
            FieldEditState::EditingName => TrackEditorModel {
                name_buffer: self.name_buffer.push(c),
                ..self
            },
            FieldEditState::EditingValue => TrackEditorModel {
                value_buffer: self.value_buffer.push(c),
                ..self
            },
            FieldEditState::NonEditable => self,
        }
    }

    /// The last character taken back.
    pub open spec fn untyped(self) -> Self {
        match self.field_edit_state {
            FieldEditState::EditingName => TrackEditorModel {
                name_buffer: without_last(self.name_buffer),
                ..self
            },
            FieldEditState::EditingValue => TrackEditorModel {
                value_buffer: without_last(self.value_buffer),
                ..self
            },
            FieldEditState::NonEditable => self,
        }
    }

    /// All changes.
    pub open spec fn changes(self) -> Seq<TagChangeModel> {
        changes_between(self.original_tag_fields, self.tag_fields)
    }

    /// The editor after a key, and what it asks for.
    pub open spec fn key_step(self, key: KeyEvent) -> (Self, TrackEditorAnswer) {
        let nothing = TrackEditorAnswer::Nothing;
        match key.code {
            KeyCode::Esc => if self.field_edit_state != FieldEditState::NonEditable {
                (self.editing(FieldEditState::NonEditable), nothing)
            } else {
                (self, TrackEditorAnswer::Exit)
            },
            KeyCode::Up => (self.moved_up(), nothing),
            KeyCode::Down => (self.moved_down(), nothing),
            KeyCode::Left => (TrackEditorModel { focus_on_value: false, ..self }, nothing),
            KeyCode::Right => (TrackEditorModel { focus_on_value: true, ..self }, nothing),
            KeyCode::Tab => if key.shift {
                (self.prev(), nothing)
            } else {
                (
                    self.next().0,
                    if self.next().1 {
                        ask_to_save()
                    } else {
                        nothing
                    },
                )
            },
            KeyCode::Enter => (self.enter(), nothing),
            KeyCode::Char(c) => if c == 'f' || c == 'F' {
                (
                    self.filled(),
                    if self.can_fill() {
                        TrackEditorAnswer::StatusMessage("Value copied to all tracks"@)
                    } else {
                        nothing
                    },
                )
            } else if c == 'u' && key.control {
                (self.cleared(), nothing)
            } else {
                (self.typed(c), nothing)
            },
            KeyCode::Backspace => (self.untyped(), nothing),
            _ => (self, nothing),
        }
    }
}

/// The fields of some tracks, from the tags that were read from their files.
fn fields_of_all(tracks: &Vec<Track>, read: Vec<Option<Vec<(String, String)>>>) -> (r: Vec<
    Vec<TagField>,
>)
    requires
        read.len() == tracks.len(),
    ensures
        r.deep_view() == fields_of_tracks(tracks.deep_view(), read.deep_view()),
{
    let ghost ts = tracks.deep_view();
    let ghost rs = read.deep_view();
    let mut read = read;
    let mut out: Vec<Vec<TagField>> = Vec::new();
    let mut i: usize = 0;
    while i < tracks.len()
        invariant
            i <= tracks.len(),
            ts == tracks.deep_view(),
            rs.len() == tracks.len(),
            read.deep_view() == rs.skip(i as int),
            out.len() == i,
            forall|k: int|
                0 <= k < i ==> (#[trigger] out[k]).deep_view() == fields_of_track(ts[k], rs[k]),
        decreases tracks.len() - i,
    {
        let ghost before = read.deep_view();
        proof {
            assert(before.len() == rs.len() - i);
            assert(read.len() == before.len());
            assert(before[0] == rs[i as int]);
        }
        let tags: Option<Vec<(String, String)>> = read.remove(0);
        proof {
            assert(tags.deep_view() == rs[i as int]);
            assert(read.deep_view() =~= before.remove(0));
            assert(before.remove(0) =~= rs.skip(i as int + 1));
        }
        out.push(track_to_tag_fields(&tracks[i], tags));
        i = i + 1;
    }
    proof {
        assert(out.deep_view() =~= fields_of_tracks(ts, rs));
    }
    out
}

impl TagEditorState {
    fn open(
        tracks: Vec<Track>,
        groups: Vec<DuplicateGroupInfo>,
        group: Option<usize>,
        read: Vec<Option<Vec<(String, String)>>>,
    ) -> (r: Self)
        requires
            read.len() == tracks.len(),
        ensures
            r@ == opened(tracks.deep_view(), groups.deep_view(), group, read.deep_view()),
    {
        let tag_fields: Vec<Vec<TagField>> = fields_of_all(&tracks, read);
        let original_tag_fields: Vec<Vec<TagField>> = copy_all_fields(&tag_fields);
        TagEditorState {
            tracks,
            tag_fields,
            original_tag_fields,
            current_track_idx: 0,
            current_field_idx: 0,
            field_edit_state: FieldEditState::NonEditable,
            name_buffer: String::new(),
            value_buffer: String::new(),
            original_name: String::new(),
            original_value: String::new(),
            duplicate_groups: groups,
            current_group_idx: group,
            focus_on_value: true,
        }
    }

    /// Opens the editor on some tracks, with the tags that were read from each.
    pub fn new(
        tracks: Vec<Track>,
        duplicate_groups: Vec<DuplicateGroupInfo>,
        read: Vec<Option<Vec<(String, String)>>>,
    ) -> (r: Self)
        requires
            read.len() == tracks.len(),
        ensures
            r@ == opened(tracks.deep_view(), duplicate_groups.deep_view(), None, read.deep_view()),
    {
        Self::open(tracks, duplicate_groups, None, read)
    }

    /// Opens the editor on one of some groups of duplicates. There is none where
    /// the group is not among them.
    pub fn new_for_duplicate_workflow(
        groups: Vec<DuplicateGroupInfo>,
        starting_group_idx: usize,
        read: Vec<Option<Vec<(String, String)>>>,
    ) -> (r: Option<Self>)
        requires
            starting_group_idx < groups.len() ==> read.len()
                == groups[starting_group_idx as int].tracks.len(),
        ensures
            r is Some <==> starting_group_idx < groups.len(),
            r is Some ==> r->0@ == opened(
                groups.deep_view()[starting_group_idx as int].tracks,
                groups.deep_view(),
                Some(starting_group_idx),
                read.deep_view(),
            ),
    {
        if starting_group_idx >= groups.len() {
            return None;
        }
        let tracks: Vec<Track> = groups[starting_group_idx].tracks.clone();
        proof {
            assert(tracks.deep_view()
                =~= groups.deep_view()[starting_group_idx as int].tracks);
        }
        Some(Self::open(tracks, groups, Some(starting_group_idx), read))
    }

    /// A copy of the field in hand.
    fn field_in_hand(&self) -> (r: Option<TagField>)
        ensures
            r.deep_view() == self@.field_in_hand(),
    {
        if self.current_track_idx < self.tag_fields.len() && self.current_field_idx
            < self.tag_fields[self.current_track_idx].len() {
            Some(self.tag_fields[self.current_track_idx][self.current_field_idx].clone())
        } else {
            None
        }
    }

    /// Puts another field in place of the one in hand.
    fn set_field(&mut self, field: TagField)
        requires
            old(self)@.field_in_hand() is Some,
        ensures
            final(self)@ == old(self)@.with_field(field.deep_view()),
    {
        let mut fields: Vec<TagField> = copy_fields(&self.tag_fields[self.current_track_idx]);
        set_item(&mut fields, self.current_field_idx, field);
        set_item(&mut self.tag_fields, self.current_track_idx, fields);
    }

    /// Answers a key.
    pub fn handle_key(&mut self, key: KeyEvent) -> (r: TagEditorAction)
        ensures
            (final(self)@, r.deep_view()) == old(self)@.key_step(key),
    {
        match key.code {
            KeyCode::Esc => {
                if self.field_edit_state != FieldEditState::NonEditable {
                    self.field_edit_state = FieldEditState::NonEditable;
                    TagEditorAction::Nothing
                } else {
                    TagEditorAction::Exit
                }
            },
            KeyCode::Up => {
                self.move_up();
                TagEditorAction::Nothing
            },
            KeyCode::Down => {
                self.move_down();
                TagEditorAction::Nothing
            },
            KeyCode::Left => {
                self.focus_on_value = false;
                TagEditorAction::Nothing
            },
            KeyCode::Right => {
                self.focus_on_value = true;
                TagEditorAction::Nothing
            },
            KeyCode::Tab => {
                if key.shift {
                    self.prev_track();
                    TagEditorAction::Nothing
                } else if self.next_track() {
                    TagEditorAction::ShowModal(
                        TagEditorModal::SaveConfirmation { selected_button: 0 },
                    )
                } else {
                    TagEditorAction::Nothing
                }
            },
            KeyCode::Enter => {
                self.handle_enter();
                TagEditorAction::Nothing
            },
            KeyCode::Char(c) => {
                if c == 'f' || c == 'F' {
                    if self.fill_to_all() {
                        TagEditorAction::StatusMessage("Value copied to all tracks".to_owned())
                    } else {
                        TagEditorAction::Nothing
                    }
                } else if c == 'u' && key.control {
                    self.clear_current_field();
                    TagEditorAction::Nothing
                } else {
                    self.insert_char(c);
                    TagEditorAction::Nothing
                }
            },
            KeyCode::Backspace => {
                self.delete_char();
                TagEditorAction::Nothing
            },
            _ => TagEditorAction::Nothing,
        }
    }

    fn move_up(&mut self)
        ensures
            final(self)@ == old(self)@.moved_up(),
    {
        self.commit_current_buffer();
        if self.current_field_idx > 0 {
            self.current_field_idx = self.current_field_idx - 1;
            self.load_buffers();
        }
    }

    fn move_down(&mut self)
        ensures
            final(self)@ == old(self)@.moved_down(),
    {
        self.commit_current_buffer();
        let n: usize = if self.current_track_idx < self.tag_fields.len() {
            self.tag_fields[self.current_track_idx].len()
        } else {
            0
        };
        if n > 0 && self.current_field_idx < n - 1 {
            self.current_field_idx = self.current_field_idx + 1;
            self.load_buffers();
        }
    }

    /// Moves to the next track. Returns whether there is none.
    fn next_track(&mut self) -> (r: bool)
        ensures
            (final(self)@, r) == old(self)@.next(),
    {
        self.commit_current_buffer();
        self.field_edit_state = FieldEditState::NonEditable;
        if self.tracks.len() > 0 && self.current_track_idx < self.tracks.len() - 1 {
            self.current_track_idx = self.current_track_idx + 1;
            self.current_field_idx = 0;
            self.load_buffers();
            false
        } else {
            true
        }
    }

    fn prev_track(&mut self)
        ensures
            final(self)@ == old(self)@.prev(),
    {
        self.commit_current_buffer();
        self.field_edit_state = FieldEditState::NonEditable;
        if self.current_track_idx > 0 {
            self.current_track_idx = self.current_track_idx - 1;
            self.current_field_idx = 0;
            self.load_buffers();
        }
    }

    fn handle_enter(&mut self)
        ensures
            final(self)@ == old(self)@.enter(),
    {
        if let Some(f) = self.field_in_hand() {
            if text::same(f.name.as_str(), "New Tag") {
                self.create_new_tag();
            } else if self.field_edit_state == FieldEditState::NonEditable {
                self.field_edit_state = if self.focus_on_value {
                    FieldEditState::EditingValue
                } else {
                    FieldEditState::EditingName
                };
                self.load_buffers();
            } else {
                self.commit_current_buffer();
                self.field_edit_state = FieldEditState::NonEditable;
            }
        }
    }

    fn create_new_tag(&mut self)
        ensures
            final(self)@ == old(self)@.create_tag(),
    {
        if self.current_track_idx < self.tag_fields.len() {
            let mut fields: Vec<TagField> = copy_fields(&self.tag_fields[self.current_track_idx]);
            let at: usize = if fields.len() == 0 {
                0
            } else {
                fields.len() - 1
            };
            insert_item(
                &mut fields,
                at,
                TagField {
                    name: "new_tag".to_owned(),
                    value: String::new(),
                    editable: true,
                    is_unique_per_track: false,
                },
            );
            set_item(&mut self.tag_fields, self.current_track_idx, fields);
            self.current_field_idx = at;
        }
        self.field_edit_state = FieldEditState::EditingName;
        self.name_buffer = "new_tag".to_owned();
        self.value_buffer.clear();
        self.focus_on_value = false;
    }

    fn load_buffers(&mut self)
        ensures
            final(self)@ == old(self)@.load(),
    {
        if let Some(f) = self.field_in_hand() {
            self.name_buffer = f.name.clone();
            self.value_buffer = f.value.clone();
            self.original_name = f.name;
            self.original_value = f.value;
        }
    }

    fn commit_current_buffer(&mut self)
        ensures
            final(self)@ == old(self)@.commit(),
    {
        if let Some(f) = self.field_in_hand() {
            match self.field_edit_state {
                FieldEditState::EditingName => {
                    let name: String = self.name_buffer.clone();
                    self.set_field(
                        TagField {
                            name,
                            value: f.value,
                            editable: f.editable,
                            is_unique_per_track: f.is_unique_per_track,
                        },
                    );
                },
                FieldEditState::EditingValue => {
                    let value: String = self.value_buffer.clone();
                    self.set_field(
                        TagField {
                            name: f.name,
                            value,
                            editable: f.editable,
                            is_unique_per_track: f.is_unique_per_track,
                        },
                    );
                },
                FieldEditState::NonEditable => {},
            }
        }
    }

    fn insert_char(&mut self, c: char)
        ensures
            final(self)@ == old(self)@.typed(c),
    {
        match self.field_edit_state {
            FieldEditState::EditingName => {
                self.name_buffer.push(c);
            },
            FieldEditState::EditingValue => {
                self.value_buffer.push(c);
            },
            FieldEditState::NonEditable => {},
        }
    }

    fn delete_char(&mut self)
        ensures
            final(self)@ == old(self)@.untyped(),
    {
        match self.field_edit_state {
            FieldEditState::EditingName => {
                let _ = self.name_buffer.pop();
            },
            FieldEditState::EditingValue => {
                let _ = self.value_buffer.pop();
            },
            FieldEditState::NonEditable => {},
        }
    }

    /// Fills the value in hand into all tracks. Returns whether it can be.
    fn fill_to_all(&mut self) -> (r: bool)
        ensures
            final(self)@ == old(self)@.filled(),
            r == old(self)@.can_fill(),
    {
        let f: TagField = match self.field_in_hand() {
            Some(f) => f,
            None => {
                return false;
            },
        };
        if f.is_unique_per_track || f.value.as_str().is_empty() || text::same(
            f.name.as_str(),
            "New Tag",
        ) {
            return false;
        }
        let ghost before = self.tag_fields.deep_view();
        let mut out: Vec<Vec<TagField>> = Vec::new();
        let mut i: usize = 0;
        while i < self.tag_fields.len()
            invariant
                i <= self.tag_fields.len(),
                self@ == old(self)@,
                before == self.tag_fields.deep_view(),
                out.len() == i,
                forall|k: int|
                    0 <= k < i ==> (#[trigger] out[k]).deep_view() == filling_track(
                        f.name@,
                        f.value@,
                    )(before[k]),
            decreases self.tag_fields.len() - i,
        {
            let made: Vec<TagField> = fill_track(
                &self.tag_fields[i],
                f.name.as_str(),
                f.value.as_str(),
            );
            out.push(made);
            i = i + 1;
        }
        proof {
            assert(out.deep_view() =~= before.map_values(filling_track(f.name@, f.value@)));
        }
        self.tag_fields = out;
        true
    }

    fn clear_current_field(&mut self)
        ensures
            final(self)@ == old(self)@.cleared(),
    {
        match self.field_edit_state {
            FieldEditState::EditingName => {
                self.name_buffer.clear();
            },
            FieldEditState::EditingValue => {
                self.value_buffer.clear();
            },
            FieldEditState::NonEditable => {
                if let Some(f) = self.field_in_hand() {
                    self.set_field(
                        TagField {
                            name: f.name,
                            value: String::new(),
                            editable: f.editable,
                            is_unique_per_track: f.is_unique_per_track,
                        },
                    );
                }
            },
        }
    }

    /// Whether there is anything to save.
    pub fn has_changes(&self) -> (r: bool)
        ensures
            r == (self@.changes().len() != 0),
    {
        compute_changes(&self.original_tag_fields, &self.tag_fields).len() != 0
    }

    /// The changes for the preview: those that several tracks share, and the
    /// others.
    pub fn get_changes_for_preview(&self) -> (r: (Vec<GroupedChange>, Vec<TagChange>))
        ensures
            r.0.deep_view() == picked(
                change_keys(self@.changes()),
                shared(self@.changes()),
                group_of(self@.changes()),
            ),
            r.1.deep_view() == picked(
                change_keys(self@.changes()),
                lone(self@.changes()),
                single_of(self@.changes()),
            ),
    {
        let changes: Vec<TagChange> = compute_changes(&self.original_tag_fields, &self.tag_fields);
        group_common_changes(&changes)
    }
}

/// The fields of a track with a value filled in.
fn fill_track(fields: &Vec<TagField>, name: &str, value: &str) -> (r: Vec<TagField>)
    ensures
        r.deep_view() == filling_track(name@, value@)(fields.deep_view()),
{
    let ghost s = fields.deep_view();
    let mut out: Vec<TagField> = Vec::new();
    let mut i: usize = 0;
    while i < fields.len()
        invariant
            i <= fields.len(),
            s == fields.deep_view(),
            out.len() == i,
            forall|k: int|
                0 <= k < i ==> (#[trigger] out[k]).deep_view() == filling(name@, value@)(s[k]),
        decreases fields.len() - i,
    {
        let mut f: TagField = fields[i].clone();
        if text::same(fields[i].name.as_str(), name) && !fields[i].is_unique_per_track {
            f.value = value.to_owned();
        }
        out.push(f);
        i = i + 1;
    }
    proof {
        assert(out.deep_view() =~= s.map_values(filling(name@, value@)));
    }
    out
}

// ---------------------------------------------------------------------------
// Laws
// ---------------------------------------------------------------------------

/// Filling a value into all tracks leaves every field alone that is a track's
/// own or bears another name, and gives the value to all others.
pub proof fn law_fill_reaches_shared_fields_only(m: TrackEditorModel, i: int, k: int)
    requires
        m.can_fill(),
        0 <= i < m.tag_fields.len(),
        0 <= k < m.tag_fields[i].len(),
    ensures
        takes(m.tag_fields[i][k], m.field_in_hand()->0.name) ==> m.filled().tag_fields[i][k].value
            == m.field_in_hand()->0.value,
        !takes(m.tag_fields[i][k], m.field_in_hand()->0.name) ==> m.filled().tag_fields[i][k]
            == m.tag_fields[i][k],
{
}

/// Filling a value into all tracks twice is filling it once.
pub proof fn law_fill_twice(m: TrackEditorModel)
    ensures
        m.filled().filled() == m.filled(),
{
    let a = m.filled();
    if m.can_fill() {
        let f = m.field_in_hand()->0;
        let i = m.current_track_idx as int;
        let k = m.current_field_idx as int;
        assert(a.tag_fields[i][k].name == f.name && a.tag_fields[i][k].value == f.value);
        assert(a.field_in_hand() == Some(f));
        assert forall|j: int| 0 <= j < a.tag_fields.len() implies #[trigger] a.filled().tag_fields[j]
            == a.tag_fields[j] by {
            assert(a.filled().tag_fields[j] =~= a.tag_fields[j]);
        }
        assert(a.filled().tag_fields =~= a.tag_fields);
    }
}

/// An editor that has just been opened has nothing to save.
pub proof fn law_opened_is_unchanged(
    tracks: Seq<TrackModel>,
    groups: Seq<DuplicateGroupModel>,
    group: Option<usize>,
    read: Seq<Option<Seq<(Seq<char>, Seq<char>)>>>,
)
    ensures
        opened(tracks, groups, group, read).changes() == Seq::<TagChangeModel>::empty(),
{
    let m = opened(tracks, groups, group, read);
    lemma_same_tracks(m.tag_fields, m.tag_fields.len());
}

proof fn lemma_same_tracks(fields: Seq<Seq<FieldModel>>, n: nat)
    requires
        n <= fields.len(),
    ensures
        crate::multi_track_editor::fields::track_changes(fields, fields, n) == Seq::<
            TagChangeModel,
        >::empty(),
    decreases n,
{
    if n > 0 {
        lemma_same_tracks(fields, (n - 1) as nat);
        lemma_same_fields((n - 1) as usize, fields[n - 1], fields[n - 1].len());
        assert(crate::multi_track_editor::fields::track_changes(fields, fields, n) =~= Seq::<
            TagChangeModel,
        >::empty());
    }
}

proof fn lemma_same_fields(track_idx: usize, f: Seq<FieldModel>, n: nat)
    requires
        n <= f.len(),
    ensures
        crate::multi_track_editor::fields::field_changes(track_idx, f, f, n) == Seq::<
            TagChangeModel,
        >::empty(),
    decreases n,
{
    if n > 0 {
        lemma_same_fields(track_idx, f, (n - 1) as nat);
    }
}

/// The editor asks whether to save only behind the last track.
pub proof fn law_asks_behind_last_track(m: TrackEditorModel, key: KeyEvent)
    requires
        m.key_step(key).1 == ask_to_save(),
    ensures
        m.current_track_idx + 1 >= m.tracks.len(),
        key.code == KeyCode::Tab,
{
}

/// The track in hand stays one of the tracks.
pub proof fn law_track_stays_in_list(m: TrackEditorModel, key: KeyEvent)
    requires
        m.current_track_idx < m.tracks.len(),
        m.tracks.len() <= usize::MAX,
    ensures
        m.key_step(key).0.current_track_idx < m.key_step(key).0.tracks.len(),
        m.key_step(key).0.tracks == m.tracks,
        m.key_step(key).0.original_tag_fields == m.original_tag_fields,
{
}

} // verus!
