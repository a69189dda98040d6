//! The values that the tag editor works on.

use vstd::prelude::*;

use crate::corpus::{AudioFile, AudioFileModel, DecisionKey, DecisionKeyModel, Mutation, MutationModel};

verus! {

/// The flow that opened the tag editor.
#[derive(Debug, Clone, Copy, PartialEq, Eq, Structural)]
pub enum TagEditorSource {
    /// A file of the corpus browser
    CorpusBrowser,
    /// A directory
    DirectoryEdit,
    /// Results of a tag search
    TagSearch,
    /// A modal of the health view
    HealthModal,
}

/// How files are edited.
#[derive(Debug, Clone, Copy, PartialEq, Eq, Structural, Default)]
pub enum TagEditorMode {
    /// One file at a time
    #[default]
    Individual,
    /// All files as one: a change applies to every file
    Aggregated,
}

/// The place of an editor among the groups of a longer flow.
#[derive(Debug, Clone, Copy, PartialEq, Eq, Structural)]
pub struct GroupContext {
    pub group_index: usize,
    pub total_groups: usize,
}

/// What is being edited.
#[derive(Debug)]
pub enum TagEditContext {
    /// One file
    SingleFile {
        audio_file: AudioFile,
        source: TagEditorSource,
        group_context: Option<GroupContext>,
    },
    /// Some files
    BulkEdit { audio_files: Vec<AudioFile>, source: TagEditorSource },
}

/// The model of a [`TagEditContext`].
pub enum TagEditContextModel {
    SingleFile {
        audio_file: AudioFileModel,
        source: TagEditorSource,
        group_context: Option<GroupContext>,
    },
    BulkEdit { audio_files: Seq<AudioFileModel>, source: TagEditorSource },
}

impl DeepView for TagEditContext {
    type V = TagEditContextModel;

    open spec fn deep_view(&self) -> TagEditContextModel {
        match self {
            TagEditContext::SingleFile { audio_file, source, group_context } => TagEditContextModel::SingleFile {
                audio_file: audio_file.deep_view(),
                source: *source,
                group_context: *group_context,
            },
            TagEditContext::BulkEdit { audio_files, source } => TagEditContextModel::BulkEdit {
                audio_files: audio_files.deep_view(),
                source: *source,
            },
        }
    }
}

impl TagEditContextModel {
    /// The files that are edited.
    pub open spec fn files(self) -> Seq<AudioFileModel> {
        match self {
            TagEditContextModel::SingleFile { audio_file, .. } => seq![audio_file],
            TagEditContextModel::BulkEdit { audio_files, .. } => audio_files,
        }
    }

    /// The file in hand: the one file, or the file at a place.
    pub open spec fn file_at(self, i: usize) -> Option<AudioFileModel> {
        match self {
            TagEditContextModel::SingleFile { audio_file, .. } => Some(audio_file),
            TagEditContextModel::BulkEdit { audio_files, .. } => if i < audio_files.len() {
                Some(audio_files[i as int])
            } else {
                None
            },
        }
    }
}

/// The pane that has the focus. The list of files never has it.
#[derive(Debug, Clone, Copy, PartialEq, Eq, Structural, Default)]
pub enum UnifiedTagEditorFocus {
    /// The tag fields in the middle
    #[default]
    TagFields,
    /// The buttons on the right
    Actions,
}

/// The buttons of the tag editor.
#[derive(Debug, Clone, Copy, PartialEq, Eq, Structural, Default)]
pub enum TagEditorButton {
    /// Stage what is open and review the transaction
    #[default]
    ReviewAll,
    /// Take back the changes of this file
    RevertThisFile,
    /// Read the tags from disk again
    FillFromDisk,
    /// Take the tags from the index
    FillFromDb,
}

/// Which way the operator moves through the files.
#[derive(Debug, Clone, Copy, PartialEq, Eq, Structural)]
pub enum NavigationDirection {
    Next,
    Prev,
}

/// Who owns the transaction.
#[derive(Debug)]
pub enum TagEditorLaunchMode {
    /// The editor does
    Standalone,
    /// The view that opened the editor does, and takes the edits under its own key
    Embedded { decision_key: DecisionKey, decision_label: String },
}

/// The model of a [`TagEditorLaunchMode`].
pub enum TagEditorLaunchModeModel {
    Standalone,
    Embedded { decision_key: DecisionKeyModel, decision_label: Seq<char> },
}

impl DeepView for TagEditorLaunchMode {
    type V = TagEditorLaunchModeModel;

    open spec fn deep_view(&self) -> TagEditorLaunchModeModel {
        match self {
            TagEditorLaunchMode::Standalone => TagEditorLaunchModeModel::Standalone,
            TagEditorLaunchMode::Embedded { decision_key, decision_label } => TagEditorLaunchModeModel::Embedded {
                decision_key: decision_key.deep_view(),
                decision_label: decision_label@,
            },
        }
    }
}

/// What the tag editor asks of the view around it.
#[derive(Debug)]
pub enum UnifiedTagEditorAction {
    /// Nothing
    Nothing,
    /// Stage a decision, then move to another file
    StageDecisionAndNavigate {
        key: DecisionKey,
        mutations: Vec<Mutation>,
        direction: NavigationDirection,
    },
    /// Stage a decision, then show the review
    StageDecisionAndReview { key: DecisionKey, mutations: Vec<Mutation> },
    /// Stage the edits under the key of the view around, and close
    StageAndCloseEmbedded {
        decision_key: DecisionKey,
        decision_label: String,
        mutations: Vec<Mutation>,
    },
    /// Close without staging
    CloseEmbedded,
    /// Drop every staged decision and close
    DiscardTransaction,
    /// Move to the next file
    NextItem,
    /// Move to the previous file
    PrevItem,
    /// The modal was closed
    CloseModal,
    /// Show a message
    StatusMessage(String),
    /// Read the tags of the file in hand from disk
    RequestFillFromDisk,
    /// Fetch the tags of a file from the index. A file without an inode is not indexed.
    RequestFillFromDb { inode: Option<i64> },
    /// Show the review of the transaction
    RequestTransactionReview,
}

/// The model of a [`UnifiedTagEditorAction`].
pub enum UnifiedTagEditorActionModel {
    Nothing,
    StageDecisionAndNavigate {
        key: DecisionKeyModel,
        mutations: Seq<MutationModel>,
        direction: NavigationDirection,
    },
    StageDecisionAndReview { key: DecisionKeyModel, mutations: Seq<MutationModel> },
    StageAndCloseEmbedded {
        decision_key: DecisionKeyModel,
        decision_label: Seq<char>,
        mutations: Seq<MutationModel>,
    },
    CloseEmbedded,
    DiscardTransaction,
    NextItem,
    PrevItem,
    CloseModal,
    StatusMessage(Seq<char>),
    RequestFillFromDisk,
    RequestFillFromDb { inode: Option<i64> },
    RequestTransactionReview,
}

impl DeepView for UnifiedTagEditorAction {
    type V = UnifiedTagEditorActionModel;

    open spec fn deep_view(&self) -> UnifiedTagEditorActionModel {
        match self {
            UnifiedTagEditorAction::Nothing => UnifiedTagEditorActionModel::Nothing,
            UnifiedTagEditorAction::StageDecisionAndNavigate { key, mutations, direction } => UnifiedTagEditorActionModel::StageDecisionAndNavigate {
                key: key.deep_view(),
                mutations: mutations.deep_view(),
                direction: *direction,
            },
            UnifiedTagEditorAction::StageDecisionAndReview { key, mutations } => UnifiedTagEditorActionModel::StageDecisionAndReview {
                key: key.deep_view(),
                mutations: mutations.deep_view(),
            },
            UnifiedTagEditorAction::StageAndCloseEmbedded { decision_key, decision_label, mutations } => UnifiedTagEditorActionModel::StageAndCloseEmbedded {
                decision_key: decision_key.deep_view(),
                decision_label: decision_label@,
                mutations: mutations.deep_view(),
            },
            UnifiedTagEditorAction::CloseEmbedded => UnifiedTagEditorActionModel::CloseEmbedded,
            UnifiedTagEditorAction::DiscardTransaction => UnifiedTagEditorActionModel::DiscardTransaction,
            UnifiedTagEditorAction::NextItem => UnifiedTagEditorActionModel::NextItem,
            UnifiedTagEditorAction::PrevItem => UnifiedTagEditorActionModel::PrevItem,
            UnifiedTagEditorAction::CloseModal => UnifiedTagEditorActionModel::CloseModal,
            UnifiedTagEditorAction::StatusMessage(s) => UnifiedTagEditorActionModel::StatusMessage(s@),
            UnifiedTagEditorAction::RequestFillFromDisk => UnifiedTagEditorActionModel::RequestFillFromDisk,
            UnifiedTagEditorAction::RequestFillFromDb { inode } => UnifiedTagEditorActionModel::RequestFillFromDb {
                inode: *inode,
            },
            UnifiedTagEditorAction::RequestTransactionReview => UnifiedTagEditorActionModel::RequestTransactionReview,
        }
    }
}

/// The buttons of the modal on unsaved changes.
#[derive(Debug, Clone, Copy, PartialEq, Eq, Structural, Default)]
pub enum UnsavedChangesButton {
    /// Keep editing. Chosen at first, so that a stuck Enter discards nothing
    #[default]
    KeepEditing,
    /// Discard the changes and go on
    DiscardAndProceed,
}

/// The buttons of the modal on staging changes.
#[derive(Debug, Clone, Copy, PartialEq, Eq, Structural, Default)]
pub enum StageChangesButton {
    /// Stage the changes, then move
    #[default]
    Yes,
    /// Move without staging
    No,
    /// Stay
    Cancel,
}

/// The modals of the tag editor.
#[derive(Debug)]
#[allow(inconsistent_fields)]
pub enum UnifiedTagEditorModal {
    /// Leaving with unsaved changes
    UnsavedChanges { selected_button: UnsavedChangesButton },
    /// All the values of one tag
    MultiValueEditor {
        /// Place of the field that was opened
        field_idx: usize,
        /// The values of its tag
        values: Vec<String>,
        /// The value in hand. Behind the last stands the entry that adds one
        current_value_idx: usize,
        /// Whether the value in hand is being typed
        editing: bool,
        /// What has been typed
        edit_buffer: String,
    },
    /// Moving on with changes that are not staged
    StageChangesConfirm { direction: NavigationDirection, selected_button: StageChangesButton },
}

/// The model of a [`UnifiedTagEditorModal`].
#[allow(inconsistent_fields)]
pub enum UnifiedTagEditorModalModel {
    UnsavedChanges { selected_button: UnsavedChangesButton },
    MultiValueEditor {
        field_idx: usize,
        values: Seq<Seq<char>>,
        current_value_idx: usize,
        editing: bool,
        edit_buffer: Seq<char>,
    },
    StageChangesConfirm { direction: NavigationDirection, selected_button: StageChangesButton },
}

impl DeepView for UnifiedTagEditorModal {
    type V = UnifiedTagEditorModalModel;

    open spec fn deep_view(&self) -> UnifiedTagEditorModalModel {
        match self {
            UnifiedTagEditorModal::UnsavedChanges { selected_button } => UnifiedTagEditorModalModel::UnsavedChanges {
                selected_button: *selected_button,
            },
            UnifiedTagEditorModal::MultiValueEditor {
                field_idx,
                values,
                current_value_idx,
                editing,
                edit_buffer,
            } => UnifiedTagEditorModalModel::MultiValueEditor {
                field_idx: *field_idx,
                values: values.deep_view(),
                current_value_idx: *current_value_idx,
                editing: *editing,
                edit_buffer: edit_buffer@,
            },
            UnifiedTagEditorModal::StageChangesConfirm { direction, selected_button } => UnifiedTagEditorModalModel::StageChangesConfirm {
                direction: *direction,
                selected_button: *selected_button,
            },
        }
    }
}

/// Whether and what of a field is being typed.
#[derive(Debug, Clone, Copy, PartialEq, Eq, Structural)]
pub enum FieldEditState {
    /// Nothing: the operator moves about
    NonEditable,
    /// The name of the tag
    EditingName,
    /// The value of the tag
    EditingValue,
}

/// One value of one tag.
#[derive(Debug)]
pub struct TagField {
    pub name: String,
    pub value: String,
    pub editable: bool,
    /// Marked for deletion
    pub deleted: bool,
}

/// The model of a [`TagField`].
pub struct TagFieldModel {
    pub name: Seq<char>,
    pub value: Seq<char>,
    pub editable: bool,
    pub deleted: bool,
}

impl DeepView for TagField {
    type V = TagFieldModel;

    open spec fn deep_view(&self) -> TagFieldModel {
        TagFieldModel {
            name: self.name@,
            value: self.value@,
            editable: self.editable,
            deleted: self.deleted,
        }
    }
}

impl Clone for TagField {
    fn clone(&self) -> (r: Self)
        ensures
            r.deep_view() == self.deep_view(),
    {
        TagField {
            name: self.name.clone(),
            value: self.value.clone(),
            editable: self.editable,
            deleted: self.deleted,
        }
    }
}

impl TagField {
    /// Whether two fields are the same.
    pub fn same(&self, other: &TagField) -> (r: bool)
        ensures
            r == (self.deep_view() == other.deep_view()),
    {
        self.name == other.name && self.value == other.value && self.editable == other.editable
            && self.deleted == other.deleted
    }
}

/// A copy of the fields of one file.
pub fn copy_fields(v: &Vec<TagField>) -> (r: Vec<TagField>)
    ensures
        r.deep_view() == v.deep_view(),
{
    let r: Vec<TagField> = v.clone();
    proof {
        assert(r.deep_view() =~= v.deep_view());
    }
    r
}

/// A copy of the fields of some files.
pub fn copy_all_fields(v: &Vec<Vec<TagField>>) -> (r: Vec<Vec<TagField>>)
    ensures
        r.deep_view() == v.deep_view(),
{
    let mut out: Vec<Vec<TagField>> = Vec::new();
    for i in 0..v.len()
        invariant
            out.len() == i,
            forall|j: int| 0 <= j < i ==> (#[trigger] out[j]).deep_view() == v[j].deep_view(),
    {
        out.push(copy_fields(&v[i]));
    }
    proof {
        assert(out.deep_view() =~= v.deep_view());
    }
    out
}

/// Whether the fields of two files are the same.
pub fn same_fields(a: &Vec<TagField>, b: &Vec<TagField>) -> (r: bool)
    ensures
        r == (a.deep_view() == b.deep_view()),
{
    if a.len() != b.len() {
        proof {
            assert(a.deep_view().len() != b.deep_view().len());
        }
        return false;
    }
    let mut i: usize = 0;
    while i < a.len()
        invariant
            a.len() == b.len(),
            i <= a.len(),
            forall|j: int| 0 <= j < i ==> (#[trigger] a.deep_view()[j]) == b.deep_view()[j],
        decreases a.len() - i,
    {
        if !a[i].same(&b[i]) {
            proof {
                assert(a.deep_view()[i as int] != b.deep_view()[i as int]);
            }
            return false;
        }
        i = i + 1;
    }
    proof {
        assert(a.deep_view() =~= b.deep_view());
    }
    true
}

/// A change to one value of one tag of one file. An empty old value stands for
/// none, and so does an empty new one.
#[derive(Debug)]
pub struct TagChange {
    pub track_idx: usize,
    pub field_name: String,
    pub old_value: String,
    pub new_value: String,
}

/// The model of a [`TagChange`].
pub struct TagChangeModel {
    pub track_idx: usize,
    pub field_name: Seq<char>,
    pub old_value: Seq<char>,
    pub new_value: Seq<char>,
}

impl DeepView for TagChange {
    type V = TagChangeModel;

    open spec fn deep_view(&self) -> TagChangeModel {
        TagChangeModel {
            track_idx: self.track_idx,
            field_name: self.field_name@,
            old_value: self.old_value@,
            new_value: self.new_value@,
        }
    }
}

/// The value of a tag across some files.
#[derive(Debug)]
pub enum AggregatedValue {
    /// The files agree
    Consistent(String),
    /// The files differ. Editing takes two confirmations
    Various,
    /// The first confirmation was given
    VariousConfirming,
    /// A new value for every file
    Edited(String),
}

/// The model of an [`AggregatedValue`].
pub enum AggregatedValueModel {
    Consistent(Seq<char>),
    Various,
    VariousConfirming,
    Edited(Seq<char>),
}

impl DeepView for AggregatedValue {
    type V = AggregatedValueModel;

    open spec fn deep_view(&self) -> AggregatedValueModel {
        match self {
            AggregatedValue::Consistent(s) => AggregatedValueModel::Consistent(s@),
            AggregatedValue::Various => AggregatedValueModel::Various,
            AggregatedValue::VariousConfirming => AggregatedValueModel::VariousConfirming,
            AggregatedValue::Edited(s) => AggregatedValueModel::Edited(s@),
        }
    }
}

impl Clone for AggregatedValue {
    fn clone(&self) -> (r: Self)
        ensures
            r.deep_view() == self.deep_view(),
    {
        match self {
            AggregatedValue::Consistent(s) => AggregatedValue::Consistent(s.clone()),
            AggregatedValue::Various => AggregatedValue::Various,
            AggregatedValue::VariousConfirming => AggregatedValue::VariousConfirming,
            AggregatedValue::Edited(s) => AggregatedValue::Edited(s.clone()),
        }
    }
}

impl AggregatedValue {
    /// Whether two values are the same.
    pub fn same(&self, other: &AggregatedValue) -> (r: bool)
        ensures
            r == (self.deep_view() == other.deep_view()),
    {
        match (self, other) {
            (AggregatedValue::Consistent(a), AggregatedValue::Consistent(b)) => *a == *b,
            (AggregatedValue::Various, AggregatedValue::Various) => true,
            (AggregatedValue::VariousConfirming, AggregatedValue::VariousConfirming) => true,
            (AggregatedValue::Edited(a), AggregatedValue::Edited(b)) => *a == *b,
            _ => false,
        }
    }

    /// The text to start typing from: the one value, or nothing where the
    /// files differ.
    pub fn typed(&self) -> (r: String)
        ensures
            r@ == self.deep_view().text(),
    {
        match self {
            AggregatedValue::Consistent(s) => s.clone(),
            AggregatedValue::Edited(s) => s.clone(),
            _ => String::new(),
        }
    }
}

impl AggregatedValueModel {
    /// The one value, or nothing where the files differ.
    pub open spec fn text(self) -> Seq<char> {
        match self {
            AggregatedValueModel::Consistent(s) => s,
            AggregatedValueModel::Edited(s) => s,
            _ => Seq::empty(),
        }
    }
}

/// One tag across some files.
#[derive(Debug)]
pub struct AggregatedTagField {
    pub name: String,
    pub value: AggregatedValue,
    pub original_value: AggregatedValue,
}

/// The model of an [`AggregatedTagField`].
pub struct AggregatedTagFieldModel {
    pub name: Seq<char>,
    pub value: AggregatedValueModel,
    pub original_value: AggregatedValueModel,
}

impl DeepView for AggregatedTagField {
    type V = AggregatedTagFieldModel;

    open spec fn deep_view(&self) -> AggregatedTagFieldModel {
        AggregatedTagFieldModel {
            name: self.name@,
            value: self.value.deep_view(),
            original_value: self.original_value.deep_view(),
        }
    }
}

impl Clone for AggregatedTagField {
    fn clone(&self) -> (r: Self)
        ensures
            r.deep_view() == self.deep_view(),
    {
        AggregatedTagField {
            name: self.name.clone(),
            value: self.value.clone(),
            original_value: self.original_value.clone(),
        }
    }
}

} // verus!
