//! The state of the tag editor: what it holds, and what it says of it.

use vstd::prelude::*;

use crate::corpus::{same_mutations, AudioFile, DecisionKey, Mutation, MutationModel, TagOpModel};
use crate::lists::{chosen, distinct, first_place, lemma_chosen_start, lemma_chosen_step, put_new, set_item};
use crate::ordering::sorted;
use crate::paths;
use crate::screen::{nothing, put, put_all};
use crate::tag_editor::model::{aggregate_changes, in_decimal, is_edited, key_item, key_of, named, of_file, op_inode, op_tag, ops_in, touched_inodes, touched_tags, value_changes, EditorModel};
use crate::tag_editor::mutations::{aggregate_tags_across_audio_files, aggregated, audio_file_to_tag_fields, changes_to_mutations, compute_changes, tags_to_fields};
use crate::tag_editor::types::{copy_all_fields, copy_fields, same_fields, AggregatedTagField, AggregatedTagFieldModel, AggregatedValue, FieldEditState, GroupContext, TagChange, TagEditContext, TagEditContextModel, TagEditorButton, TagEditorLaunchMode, TagEditorLaunchModeModel, TagEditorMode, TagEditorSource, TagField, TagFieldModel, UnifiedTagEditorAction, UnifiedTagEditorFocus, UnifiedTagEditorModal};
use crate::text;

verus! {

/// The tag editor, for one file as for many.
#[derive(Debug)]
pub struct UnifiedTagEditorState {
    /// What is being edited
    pub context: TagEditContext,
    /// One file at a time, or all as one
    pub mode: TagEditorMode,
    /// The file in hand
    pub current_item_idx: usize,
    /// How many files there are
    pub total_items: usize,
    /// The field in hand
    pub current_field_idx: usize,
    /// The first field that is shown
    pub field_scroll_offset: usize,
    /// How many fields can be shown
    pub field_visible_height: usize,
    /// Whether and what of the field is being typed
    pub field_edit_state: FieldEditState,
    /// The name as typed
    pub name_buffer: String,
    /// The value as typed
    pub value_buffer: String,
    /// Whether the value has the focus, not the name
    pub focus_on_value: bool,
    /// The fields of each file
    pub tag_fields: Vec<Vec<TagField>>,
    /// The fields of each file as they were
    pub original_tag_fields: Vec<Vec<TagField>>,
    /// All files as one
    pub aggregated_fields: Option<Vec<AggregatedTagField>>,
    /// The pane that has the focus
    pub focus: UnifiedTagEditorFocus,
    /// The button in hand
    pub selected_button: TagEditorButton,
    /// The open modal
    pub modal: Option<UnifiedTagEditorModal>,
    /// Whether the tags on disk were changed behind the index
    pub has_oob_signal: bool,
    /// The first file that is listed
    pub context_list_scroll_offset: usize,
    /// How many files can be listed
    pub context_list_visible_height: usize,
    /// How many decisions the transaction holds
    pub staged_decision_count: usize,
    /// What is staged for the file in hand
    pub staged_mutations_for_current: Option<Vec<Mutation>>,
    /// Who owns the transaction
    pub launch_mode: TagEditorLaunchMode,
}

impl View for UnifiedTagEditorState {
    type V = EditorModel;

    open spec fn view(&self) -> EditorModel {
        EditorModel {
            context: self.context.deep_view(),
            mode: self.mode,
            current_item_idx: self.current_item_idx,
            total_items: self.total_items,
            current_field_idx: self.current_field_idx,
            field_scroll_offset: self.field_scroll_offset,
            field_visible_height: self.field_visible_height,
            field_edit_state: self.field_edit_state,
            name_buffer: self.name_buffer@,
            value_buffer: self.value_buffer@,
            focus_on_value: self.focus_on_value,
            tag_fields: self.tag_fields.deep_view(),
            original_tag_fields: self.original_tag_fields.deep_view(),
            aggregated_fields: self.aggregated_fields.deep_view(),
            focus: self.focus,
            selected_button: self.selected_button,
            modal: self.modal.deep_view(),
            has_oob_signal: self.has_oob_signal,
            context_list_scroll_offset: self.context_list_scroll_offset,
            context_list_visible_height: self.context_list_visible_height,
            staged_decision_count: self.staged_decision_count,
            staged_mutations_for_current: self.staged_mutations_for_current.deep_view(),
            launch_mode: self.launch_mode.deep_view(),
        }
    }
}

/// Whether all files lie in one zone. Tag changes are per zone.
pub open spec fn one_zone(files: Seq<crate::corpus::AudioFileModel>) -> bool {
    forall|i: int, j: int|
        0 <= i < files.len() && 0 <= j < files.len() ==> (#[trigger] files[i]).zone == (
        #[trigger] files[j]).zone
}

/// The editor as it opens.
pub open spec fn opened(
    mode: TagEditorMode,
    files: Seq<crate::corpus::AudioFileModel>,
    source: TagEditorSource,
    group_context: Option<GroupContext>,
    fields: Seq<Seq<TagFieldModel>>,
) -> EditorModel {
    EditorModel {
        context: if files.len() == 1 {
            TagEditContextModel::SingleFile { audio_file: files[0], source, group_context }
        } else {
            TagEditContextModel::BulkEdit { audio_files: files, source }
        },
        mode,
        current_item_idx: 0,
        total_items: files.len() as usize,
        current_field_idx: 0,
        field_scroll_offset: 0,
        field_visible_height: 10,
        field_edit_state: FieldEditState::NonEditable,
        name_buffer: Seq::empty(),
        value_buffer: Seq::empty(),
        focus_on_value: true,
        tag_fields: fields,
        original_tag_fields: fields,
        aggregated_fields: if mode == TagEditorMode::Aggregated {
            Some(aggregated(fields))
        } else {
            None
        },
        focus: UnifiedTagEditorFocus::TagFields,
        selected_button: TagEditorButton::ReviewAll,
        modal: None,
        has_oob_signal: false,
        context_list_scroll_offset: 0,
        context_list_visible_height: 0,
        staged_decision_count: 0,
        staged_mutations_for_current: None,
        launch_mode: TagEditorLaunchModeModel::Standalone,
    }
}

impl UnifiedTagEditorState {
    /// The path of the file in hand.
    pub fn selected_path(&self) -> (r: Option<&str>)
        ensures
            r is Some <==> self@.context.file_at(self@.current_item_idx) is Some,
            r is Some ==> r->0@ == self@.context.file_at(self@.current_item_idx)->0.path,
    {
        match self.get_current_audio_file() {
            Some(f) => Some(f.path()),
            None => None,
        }
    }

    /// Opens the editor on some files whose fields were loaded.
    pub fn new(
        mode: TagEditorMode,
        audio_files: Vec<AudioFile>,
        source: TagEditorSource,
        group_context: Option<GroupContext>,
        tag_fields: Vec<Vec<TagField>>,
    ) -> (r: Self)
        requires
            one_zone(audio_files.deep_view()),
            tag_fields.len() == audio_files.len(),
        ensures
            r@ == opened(
                mode,
                audio_files.deep_view(),
                source,
                group_context,
                tag_fields.deep_view(),
            ),
    {
        let total_items: usize = audio_files.len();
        let original_tag_fields: Vec<Vec<TagField>> = copy_all_fields(&tag_fields);
        let aggregated_fields: Option<Vec<AggregatedTagField>> = if mode
            == TagEditorMode::Aggregated {
            Some(aggregate_tags_across_audio_files(&tag_fields))
        } else {
            None
        };
        let context: TagEditContext = if audio_files.len() == 1 {
            TagEditContext::SingleFile { audio_file: audio_files[0].clone(), source, group_context }
        } else {
            TagEditContext::BulkEdit { audio_files, source }
        };
        UnifiedTagEditorState {
            context,
            mode,
            current_item_idx: 0,
            total_items,
            current_field_idx: 0,
            field_scroll_offset: 0,
            field_visible_height: 10,
            field_edit_state: FieldEditState::NonEditable,
            name_buffer: String::new(),
            value_buffer: String::new(),
            focus_on_value: true,
            tag_fields,
            original_tag_fields,
            aggregated_fields,
            focus: UnifiedTagEditorFocus::TagFields,
            selected_button: TagEditorButton::ReviewAll,
            modal: None,
            has_oob_signal: false,
            context_list_scroll_offset: 0,
            context_list_visible_height: 0,
            staged_decision_count: 0,
            staged_mutations_for_current: None,
            launch_mode: TagEditorLaunchMode::Standalone,
        }
    }

    /// Opens the editor on one file.
    pub fn single_file(
        audio_file: AudioFile,
        source: TagEditorSource,
        group_context: Option<GroupContext>,
        tag_fields: Vec<TagField>,
    ) -> (r: Self)
        ensures
            r@ == opened(
                TagEditorMode::Individual,
                seq![audio_file.deep_view()],
                source,
                group_context,
                seq![tag_fields.deep_view()],
            ),
    {
        let mut files: Vec<AudioFile> = nothing();
        put(&mut files, audio_file);
        let mut fields: Vec<Vec<TagField>> = nothing();
        put(&mut fields, tag_fields);
        Self::new(TagEditorMode::Individual, files, source, group_context, fields)
    }

    /// Opens the editor on some files, one at a time.
    pub fn bulk_from_audio_files(
        audio_files: Vec<AudioFile>,
        source: TagEditorSource,
        group_context: Option<GroupContext>,
        tag_fields: Vec<Vec<TagField>>,
    ) -> (r: Self)
        requires
            one_zone(audio_files.deep_view()),
            tag_fields.len() == audio_files.len(),
        ensures
            r@ == opened(
                TagEditorMode::Individual,
                audio_files.deep_view(),
                source,
                group_context,
                tag_fields.deep_view(),
            ),
    {
        Self::new(TagEditorMode::Individual, audio_files, source, group_context, tag_fields)
    }

    /// Opens the editor on some files as one.
    pub fn aggregated_bulk(
        audio_files: Vec<AudioFile>,
        source: TagEditorSource,
        tag_fields: Vec<Vec<TagField>>,
    ) -> (r: Self)
        requires
            one_zone(audio_files.deep_view()),
            tag_fields.len() == audio_files.len(),
        ensures
            r@ == opened(
                TagEditorMode::Aggregated,
                audio_files.deep_view(),
                source,
                None,
                tag_fields.deep_view(),
            ),
    {
        Self::new(TagEditorMode::Aggregated, audio_files, source, None, tag_fields)
    }

    /// Opens the editor on the files of a directory as one.
    pub fn directory_aggregated(
        audio_files: Vec<AudioFile>,
        tag_fields: Vec<Vec<TagField>>,
    ) -> (r: Self)
        requires
            one_zone(audio_files.deep_view()),
            tag_fields.len() == audio_files.len(),
        ensures
            r@ == opened(
                TagEditorMode::Aggregated,
                audio_files.deep_view(),
                TagEditorSource::DirectoryEdit,
                None,
                tag_fields.deep_view(),
            ),
    {
        Self::new(
            TagEditorMode::Aggregated,
            audio_files,
            TagEditorSource::DirectoryEdit,
            None,
            tag_fields,
        )
    }

    /// The same editor inside a view that owns the transaction.
    pub fn with_embedded_mode(self, decision_key: DecisionKey, decision_label: String) -> (r: Self)
        ensures
            r@ == (EditorModel {
                launch_mode: TagEditorLaunchModeModel::Embedded {
                    decision_key: decision_key.deep_view(),
                    decision_label: decision_label@,
                },
                ..self@
            }),
    {
        let mut s = self;
        s.launch_mode = TagEditorLaunchMode::Embedded { decision_key, decision_label };
        s
    }

    /// Whether another view owns the transaction.
    pub fn is_embedded(&self) -> (r: bool)
        ensures
            r == self@.embedded(),
    {
        match self.launch_mode {
            TagEditorLaunchMode::Embedded { .. } => true,
            TagEditorLaunchMode::Standalone => false,
        }
    }

    /// Whether all files are edited as one.
    pub fn is_aggregated_mode(&self) -> (r: bool)
        ensures
            r == self@.aggregated(),
    {
        self.mode == TagEditorMode::Aggregated
    }

    /// A stable item for the key of a decision, made of the inodes and the tags
    /// that its mutations touch: editing the same again replaces the decision,
    /// editing something else stands beside it.
    pub fn decision_key_item(&self, mutations: &Vec<Mutation>) -> (r: String)
        ensures
            r@ == key_item(mutations.deep_view()),
    {
        let mut inodes: Vec<i64> = nothing();
        let mut tags: Vec<String> = nothing();
        let ghost all = mutations.deep_view();
        let ghost mut ops: Seq<TagOpModel> = Seq::empty();
        proof {
            assert(all.take(0) =~= Seq::<MutationModel>::empty());
            assert(ops.map_values(op_inode()) =~= Seq::<i64>::empty());
            assert(ops.map_values(op_tag()) =~= Seq::<Seq<char>>::empty());
        }
        let mut i: usize = 0;
        while i < mutations.len()
            invariant
                i <= mutations.len(),
                all == mutations.deep_view(),
                ops == ops_in(all.take(i as int)),
                inodes.deep_view() == distinct(ops.map_values(op_inode())),
                tags.deep_view() == distinct(ops.map_values(op_tag())),
            decreases mutations.len() - i,
        {
            proof {
                assert(all.take(i as int + 1).drop_last() =~= all.take(i as int));
                assert(all.take(i as int + 1).last() == mutations[i as int].deep_view());
            }
            if let Mutation::ApplyTagOps { ops: here } = &mutations[i] {
                let ghost base = ops;
                let ghost h = here.deep_view();
                let mut k: usize = 0;
                proof {
                    assert(base + h.take(0) =~= base);
                }
                while k < here.len()
                    invariant
                        k <= here.len(),
                        h == here.deep_view(),
                        ops == base + h.take(k as int),
                        inodes.deep_view() == distinct(ops.map_values(op_inode())),
                        tags.deep_view() == distinct(ops.map_values(op_tag())),
                    decreases here.len() - k,
                {
                    put_new_inode(&mut inodes, here[k].inode);
                    put_new(&mut tags, text::to_uppercase(here[k].tag_name.as_str()));
                    proof {
                        let next = ops.push(h[k as int]);
                        assert(next =~= base + h.take(k as int + 1));
                        assert(next.map_values(op_inode()).drop_last() =~= ops.map_values(
                            op_inode(),
                        ));
                        assert(next.map_values(op_tag()).drop_last() =~= ops.map_values(op_tag()));
                        ops = next;
                    }
                    k = k + 1;
                }
                proof {
                    assert(h.take(h.len() as int) =~= h);
                }
            }
            i = i + 1;
        }
        proof {
            assert(all.take(all.len() as int) =~= all);
        }
        let inodes: Vec<i64> = sorted(inodes);
        let tags: Vec<String> = sorted(tags);
        let mut numbers: Vec<String> = nothing();
        let mut k: usize = 0;
        while k < inodes.len()
            invariant
                k <= inodes.len(),
                numbers.len() == k,
                forall|j: int|
                    0 <= j < k ==> (#[trigger] numbers[j])@ == in_decimal()(
                        inodes.deep_view()[j],
                    ),
            decreases inodes.len() - k,
        {
            numbers.push(text::signed(inodes[k]));
            k = k + 1;
        }
        proof {
            assert(numbers.deep_view() =~= inodes.deep_view().map_values(in_decimal()));
            assert(inodes.deep_view() == touched_inodes(ops));
            assert(tags.deep_view() == touched_tags(ops));
        }
        let inode_part: String = text::join(&numbers, ",");
        let tags_part: String = text::join(&tags, ",");
        if tags_part.as_str().is_empty() {
            inode_part
        } else {
            text::cat3(inode_part.as_str(), ":", tags_part.as_str())
        }
    }

    /// A label for what is in hand: the name of the one file, or of the folder
    /// of the first file.
    pub fn current_item_label(&self) -> (r: String)
        ensures
            r@ == item_label(self@.context),
    {
        match &self.context {
            TagEditContext::SingleFile { audio_file, .. } => paths::name_or(
                audio_file.path(),
                "Unknown",
            ),
            TagEditContext::BulkEdit { audio_files, .. } => if audio_files.len() > 0 {
                paths::name_or(paths::folder(audio_files[0].path()), "Unknown")
            } else {
                "Unknown".to_owned()
            },
        }
    }

    /// Whether there is anything to save in what is in hand.
    pub fn has_changes_for_current_item(&self) -> (r: bool)
        ensures
            r == self@.has_changes(),
    {
        if self.is_aggregated_mode() {
            self.has_aggregated_changes()
        } else {
            self.changes_in_hand().len() != 0
        }
    }

    /// Whether the fields of a file differ from what they were.
    pub fn item_has_changes(&self, idx: usize) -> (r: bool)
        ensures
            r == (idx < self@.tag_fields.len() && idx < self@.original_tag_fields.len()
                && self@.tag_fields[idx as int] != self@.original_tag_fields[idx as int]),
    {
        if idx < self.tag_fields.len() && idx < self.original_tag_fields.len() {
            !same_fields(&self.tag_fields[idx], &self.original_tag_fields[idx])
        } else {
            false
        }
    }

    /// Whether an aggregate was given a new value.
    fn has_aggregated_changes(&self) -> (r: bool)
        ensures
            r == self@.aggregates_edited(),
    {
        match &self.aggregated_fields {
            Some(fields) => {
                let mut i: usize = 0;
                while i < fields.len()
                    invariant
                        i <= fields.len(),
                        self@.aggregated_fields == Some(fields.deep_view()),
                        forall|j: int|
                            0 <= j < i ==> !is_edited(#[trigger] fields.deep_view()[j]),
                    decreases fields.len() - i,
                {
                    if let AggregatedValue::Edited(_) = &fields[i].value {
                        proof {
                            assert(is_edited(fields.deep_view()[i as int]));
                            assert(is_edited(self@.aggregated_fields->0[i as int]));
                        }
                        return true;
                    }
                    i = i + 1;
                }
                false
            },
            None => false,
        }
    }

    /// The value that a file had under a name, or nothing.
    fn old_value(&self, track_idx: usize, name: &str) -> (r: String)
        ensures
            r@ == crate::tag_editor::model::former_value_at(
                self@.original_tag_fields,
                track_idx as int,
                name@,
            ),
    {
        if track_idx < self.original_tag_fields.len() {
            let fields: &Vec<TagField> = &self.original_tag_fields[track_idx];
            let mut i: usize = 0;
            while i < fields.len() && !text::equal_but_case(fields[i].name.as_str(), name)
                invariant
                    i <= fields.len(),
                    first_place(fields.deep_view(), 0, named(name@)) == first_place(
                        fields.deep_view(),
                        i as nat,
                        named(name@),
                    ),
                decreases fields.len() - i,
            {
                i = i + 1;
            }
            if i < fields.len() {
                fields[i].value.clone()
            } else {
                String::new()
            }
        } else {
            String::new()
        }
    }

    /// The changes that a new value makes to every file.
    fn changes_to_value(&self, name: &str, value: &str) -> (r: Vec<TagChange>)
        ensures
            r.deep_view() == value_changes(
                self@.tag_fields.len(),
                name@,
                value@,
                self@.original_tag_fields,
            ),
    {
        let mut out: Vec<TagChange> = nothing();
        let n: usize = self.tag_fields.len();
        let mut i: usize = 0;
        while i < n
            invariant
                i <= n,
                n == self.tag_fields.len(),
                out.deep_view() == value_changes(
                    i as nat,
                    name@,
                    value@,
                    self@.original_tag_fields,
                ),
            decreases n - i,
        {
            let old: String = self.old_value(i, name);
            if !text::same(old.as_str(), value) {
                put(
                    &mut out,
                    TagChange {
                        track_idx: i,
                        field_name: name.to_owned(),
                        old_value: old,
                        new_value: value.to_owned(),
                    },
                );
            }
            i = i + 1;
        }
        out
    }

    /// The changes that the edited aggregates make to every file.
    fn compute_aggregated_changes(&self) -> (r: Vec<TagChange>)
        ensures
            r.deep_view() == (match self@.aggregated_fields {
                Some(f) => aggregate_changes(
                    f,
                    self@.tag_fields.len(),
                    self@.original_tag_fields,
                ),
                None => Seq::empty(),
            }),
    {
        match &self.aggregated_fields {
            Some(fields) => {
                let ghost all = fields.deep_view();
                let mut out: Vec<TagChange> = nothing();
                proof {
                    assert(all.take(0) =~= Seq::<AggregatedTagFieldModel>::empty());
                }
                let mut i: usize = 0;
                while i < fields.len()
                    invariant
                        i <= fields.len(),
                        all == fields.deep_view(),
                        out.deep_view() == aggregate_changes(
                            all.take(i as int),
                            self@.tag_fields.len(),
                            self@.original_tag_fields,
                        ),
                    decreases fields.len() - i,
                {
                    proof {
                        assert(all.take(i as int + 1).drop_last() =~= all.take(i as int));
                        assert(all.take(i as int + 1).last() == fields[i as int].deep_view());
                    }
                    if let AggregatedValue::Edited(value) = &fields[i].value {
                        put_all(
                            &mut out,
                            self.changes_to_value(fields[i].name.as_str(), value.as_str()),
                        );
                    }
                    i = i + 1;
                }
                proof {
                    assert(all.take(all.len() as int) =~= all);
                }
                out
            },
            None => nothing(),
        }
    }

    /// The changes of all files.
    fn all_file_changes(&self) -> (r: Vec<TagChange>)
        ensures
            r.deep_view() == self@.changes(),
    {
        if self.is_aggregated_mode() {
            self.compute_aggregated_changes()
        } else {
            compute_changes(&self.original_tag_fields, &self.tag_fields)
        }
    }

    /// The changes that are staged together.
    fn changes_in_hand(&self) -> (r: Vec<TagChange>)
        ensures
            r.deep_view() == self@.changes_in_hand(),
    {
        let all: Vec<TagChange> = self.all_file_changes();
        if self.is_aggregated_mode() {
            return all;
        }
        let ghost s = all.deep_view();
        let mut out: Vec<TagChange> = nothing();
        proof {
            lemma_chosen_start(s, of_file(self.current_item_idx));
        }
        let mut i: usize = 0;
        while i < all.len()
            invariant
                i <= all.len(),
                s == all.deep_view(),
                out.deep_view() == chosen(s.take(i as int), of_file(self.current_item_idx)),
            decreases all.len() - i,
        {
            proof {
                lemma_chosen_step(s, i as int, of_file(self.current_item_idx));
            }
            if all[i].track_idx == self.current_item_idx {
                put(
                    &mut out,
                    TagChange {
                        track_idx: all[i].track_idx,
                        field_name: all[i].field_name.clone(),
                        old_value: all[i].old_value.clone(),
                        new_value: all[i].new_value.clone(),
                    },
                );
            }
            i = i + 1;
        }
        proof {
            assert(s.take(s.len() as int) =~= s);
        }
        out
    }

    /// The files that are edited.
    fn files(&self) -> (r: Vec<AudioFile>)
        ensures
            r.deep_view() == self@.context.files(),
    {
        match &self.context {
            TagEditContext::SingleFile { audio_file, .. } => {
                let mut v: Vec<AudioFile> = nothing();
                put(&mut v, audio_file.clone());
                v
            },
            TagEditContext::BulkEdit { audio_files, .. } => {
                let v: Vec<AudioFile> = audio_files.clone();
                proof {
                    assert(v.deep_view() =~= audio_files.deep_view());
                }
                v
            },
        }
    }

    /// What the changes of all files ask for.
    pub fn generate_mutations(&self) -> (r: Vec<Mutation>)
        ensures
            r.deep_view() == self@.mutations(),
    {
        changes_to_mutations(&self.all_file_changes(), &self.files())
    }

    /// What the changes in hand ask for.
    pub fn generate_mutations_for_current_item(&self) -> (r: Vec<Mutation>)
        ensures
            r.deep_view() == self@.mutations_in_hand(),
    {
        changes_to_mutations(&self.changes_in_hand(), &self.files())
    }

    /// What the changes of all files ask for, as a view around the editor takes
    /// them.
    pub fn collect_all_mutations(&self) -> (r: Vec<Mutation>)
        ensures
            r.deep_view() == self@.mutations(),
    {
        self.generate_mutations()
    }

    /// Puts the file in hand back as it was.
    pub fn drop_changes_for_current_item(&mut self)
        ensures
            final(self)@ == old(self)@.reverted(),
    {
        let i: usize = self.current_item_idx;
        if i < self.original_tag_fields.len() && i < self.tag_fields.len() {
            let original: Vec<TagField> = copy_fields(&self.original_tag_fields[i]);
            set_item(&mut self.tag_fields, i, original);
        }
        self.field_edit_state = FieldEditState::NonEditable;
    }

    /// Whether the changes in hand are staged as they are.
    pub fn changes_match_staged(&self) -> (r: bool)
        ensures
            r == self@.matches_staged(),
    {
        match &self.staged_mutations_for_current {
            None => false,
            Some(staged) => same_mutations(&self.generate_mutations_for_current_item(), staged),
        }
    }

    /// Notes what was staged for the file in hand.
    pub fn set_staged_mutations(&mut self, mutations: Vec<Mutation>)
        ensures
            final(self)@ == (EditorModel {
                staged_mutations_for_current: Some(mutations.deep_view()),
                ..old(self)@
            }),
    {
        self.staged_mutations_for_current = Some(mutations);
    }

    /// Forgets what was staged, for another file.
    pub fn clear_staged_mutations(&mut self)
        ensures
            final(self)@ == (EditorModel { staged_mutations_for_current: None, ..old(self)@ }),
    {
        self.staged_mutations_for_current = None;
    }

    /// Starts at the first field, for another file.
    pub fn reset_field_state(&mut self)
        ensures
            final(self)@ == (EditorModel {
                current_field_idx: 0,
                field_scroll_offset: 0,
                staged_mutations_for_current: None,
                ..old(self)@
            }),
    {
        self.current_field_idx = 0;
        self.field_scroll_offset = 0;
        self.clear_staged_mutations();
    }

    /// The buttons that are offered.
    pub fn available_buttons(&self) -> (r: Vec<TagEditorButton>)
        ensures
            r@ == self@.buttons(),
    {
        let mut buttons: Vec<TagEditorButton> = Vec::new();
        buttons.push(TagEditorButton::ReviewAll);
        buttons.push(TagEditorButton::RevertThisFile);
        if self.has_oob_signal {
            buttons.push(TagEditorButton::FillFromDisk);
            buttons.push(TagEditorButton::FillFromDb);
        }
        buttons
    }

    /// The file in hand.
    pub fn get_current_audio_file(&self) -> (r: Option<&AudioFile>)
        ensures
            r is Some <==> self@.context.file_at(self@.current_item_idx) is Some,
            r is Some ==> Some(r->0.deep_view()) == self@.context.file_at(self@.current_item_idx),
    {
        match &self.context {
            TagEditContext::SingleFile { audio_file, .. } => Some(audio_file),
            TagEditContext::BulkEdit { audio_files, .. } => if self.current_item_idx
                < audio_files.len() {
                Some(&audio_files[self.current_item_idx])
            } else {
                None
            },
        }
    }

    /// Gives the file in hand other fields, to be compared with from now on.
    fn refill(&mut self, fields: Vec<TagField>)
        ensures
            final(self)@ == old(self)@.refilled(fields.deep_view()),
    {
        let i: usize = self.current_item_idx;
        if i < self.tag_fields.len() {
            set_item(&mut self.tag_fields, i, copy_fields(&fields));
        }
        if i < self.original_tag_fields.len() {
            set_item(&mut self.original_tag_fields, i, fields);
        }
        self.current_field_idx = 0;
        self.field_scroll_offset = 0;
        self.field_edit_state = FieldEditState::NonEditable;
        self.has_oob_signal = false;
    }

    /// Takes the tags that were read from disk for the file in hand.
    pub fn fill_from_disk(&mut self, tags: Option<Vec<(String, String)>>) -> (r:
        UnifiedTagEditorAction)
        ensures
            final(self)@ == old(self)@.filled_from_disk(tags.deep_view()),
            r.deep_view()
                == crate::tag_editor::types::UnifiedTagEditorActionModel::StatusMessage(
                "Tags refreshed from disk"@,
            ),
    {
        if self.get_current_audio_file().is_some() {
            let fields: Vec<TagField> = audio_file_to_tag_fields(tags);
            self.refill(fields);
        }
        UnifiedTagEditorAction::StatusMessage("Tags refreshed from disk".to_owned())
    }

    /// Takes the tags that the index holds of the file in hand.
    pub fn fill_from_db_result(&mut self, tags: Vec<(String, String)>)
        ensures
            final(self)@ == old(self)@.filled_from_db(tags.deep_view()),
    {
        let mut fields: Vec<TagField> = tags_to_fields(tags);
        put(
            &mut fields,
            TagField {
                name: "New Tag".to_owned(),
                value: String::new(),
                editable: false,
                deleted: false,
            },
        );
        self.refill(fields);
    }
}

/// A label for what is in hand.
pub open spec fn item_label(context: TagEditContextModel) -> Seq<char> {
    match context {
        TagEditContextModel::SingleFile { audio_file, .. } => match paths::name_in(
            audio_file.path,
        ) {
            Some(name) => name,
            None => "Unknown"@,
        },
        TagEditContextModel::BulkEdit { audio_files, .. } => if audio_files.len() > 0 {
            match paths::name_in(paths::folder_in(audio_files[0].path)) {
                Some(name) => name,
                None => "Unknown"@,
            }
        } else {
            "Unknown"@
        },
    }
}

/// Adds an inode to some inodes unless it is there.
fn put_new_inode(v: &mut Vec<i64>, x: i64)
    ensures
        final(v).deep_view() == (if old(v).deep_view().contains(x) {
            old(v).deep_view()
        } else {
            old(v).deep_view().push(x)
        }),
{
    let mut i: usize = 0;
    while i < v.len()
        invariant
            i <= v.len(),
            v.deep_view() == old(v).deep_view(),
            forall|j: int| 0 <= j < i ==> #[trigger] v.deep_view()[j] != x,
        decreases v.len() - i,
    {
        if v[i] == x {
            proof {
                assert(v.deep_view()[i as int] == x);
            }
            return;
        }
        i = i + 1;
    }
    put(v, x);
}

// ---------------------------------------------------------------------------
// Laws
// ---------------------------------------------------------------------------

/// Putting a file back as it was leaves nothing to save in it, unless it held
/// marks for deletion from the start.
pub proof fn law_revert_leaves_no_changes(m: EditorModel)
    requires
        !m.aggregated(),
        m.tag_fields.len() == m.original_tag_fields.len(),
        m.tag_fields.len() <= usize::MAX,
        m.current_item_idx < m.tag_fields.len(),
        forall|j: int|
            0 <= j < m.original_tag_fields[m.current_item_idx as int].len() ==> !(
            #[trigger] m.original_tag_fields[m.current_item_idx as int][j]).deleted,
    ensures
        !m.reverted().has_changes(),
        m.reverted().tag_fields[m.current_item_idx as int]
            == m.original_tag_fields[m.current_item_idx as int],
{
    let r = m.reverted();
    let i = m.current_item_idx;
    lemma_no_changes_of_file(r.original_tag_fields, r.tag_fields, r.tag_fields.len(), i);
    let all = r.changes();
    crate::lists::law_chosen(all, of_file(i));
}

/// A file whose fields are as they were has no change among those of the first
/// `n` files.
proof fn lemma_no_changes_of_file(
    original: Seq<Seq<TagFieldModel>>,
    current: Seq<Seq<TagFieldModel>>,
    n: nat,
    i: usize,
)
    requires
        n <= original.len(),
        n <= current.len(),
        n <= usize::MAX + 1,
        i < current.len(),
        i < original.len(),
        current[i as int] == original[i as int],
        forall|j: int| 0 <= j < original[i as int].len() ==> !(#[trigger] original[i as int][j]).deleted,
    ensures
        forall|k: int|
            0 <= k < crate::tag_editor::mutations::changes_to_first(n, original, current).len()
                ==> (#[trigger] crate::tag_editor::mutations::changes_to_first(
                n,
                original,
                current,
            )[k]).track_idx != i,
    decreases n,
{
    if n > 0 {
        let m = (n - 1) as nat;
        lemma_no_changes_of_file(original, current, m, i);
        let of_last = crate::tag_editor::mutations::file_changes(
            m as usize,
            original[m as int],
            current[m as int],
        );
        if m == i {
            crate::tag_editor::mutations::lemma_no_changes_names(
                i,
                crate::tag_editor::mutations::tag_names(original[m as int], current[m as int]),
                original[m as int],
                current[m as int],
            );
        } else {
            crate::tag_editor::mutations::lemma_changes_are_of_file(
                m as usize,
                crate::tag_editor::mutations::tag_names(original[m as int], current[m as int]),
                original[m as int],
                current[m as int],
            );
        }
        let before = crate::tag_editor::mutations::changes_to_first(m, original, current);
        let after = crate::tag_editor::mutations::changes_to_first(n, original, current);
        assert(after == before + of_last);
    }
}

/// The key of a decision depends on nothing but the inodes and the tags that it
/// touches: mutations that touch the same have the same key.
pub proof fn law_key_depends_on_what_is_touched(
    a: Seq<MutationModel>,
    b: Seq<MutationModel>,
)
    requires
        ops_in(a).map_values(op_inode()) == ops_in(b).map_values(op_inode()),
        ops_in(a).map_values(op_tag()) == ops_in(b).map_values(op_tag()),
    ensures
        key_of(a) == key_of(b),
{
}

} // verus!
