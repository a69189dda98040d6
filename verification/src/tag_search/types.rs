//! The pieces of a search.

use vstd::prelude::*;

use crate::corpus::{AudioFile, AudioFileModel};
use crate::text::{self, lowercase};
use crate::text_input::{TextInputModel, TextInputState};

verus! {

/// What a condition is about.
#[derive(Debug, Clone, Copy, PartialEq, Eq, Structural, Default)]
pub enum ConditionType {
    /// A tag
    #[default]
    Tag,
    /// The type of the file
    FileType,
    /// The sample rate
    SampleRate,
    /// The bitrate
    Bitrate,
    /// The duration
    Duration,
}

impl ConditionType {
    /// The words for it.
    pub open spec fn words(self) -> Seq<char> {
        match self {
            ConditionType::Tag => "TAG"@,
            ConditionType::FileType => "TYPE"@,
            ConditionType::SampleRate => "RATE"@,
            ConditionType::Bitrate => "KBPS"@,
            ConditionType::Duration => "TIME"@,
        }
    }

    /// The words for it.
    pub fn label(&self) -> (r: &'static str)
        ensures
            r@ == self.words(),
    {
        match self {
            ConditionType::Tag => "TAG",
            ConditionType::FileType => "TYPE",
            ConditionType::SampleRate => "RATE",
            ConditionType::Bitrate => "KBPS",
            ConditionType::Duration => "TIME",
        }
    }

    /// The one after this, round the end.
    #[verifier::allow_in_spec]
    pub fn next(self) -> Self
        returns
            (match self {
                ConditionType::Tag => ConditionType::FileType,
                ConditionType::FileType => ConditionType::SampleRate,
                ConditionType::SampleRate => ConditionType::Bitrate,
                ConditionType::Bitrate => ConditionType::Duration,
                ConditionType::Duration => ConditionType::Tag,
            }),
    {
        match self {
            ConditionType::Tag => ConditionType::FileType,
            ConditionType::FileType => ConditionType::SampleRate,
            ConditionType::SampleRate => ConditionType::Bitrate,
            ConditionType::Bitrate => ConditionType::Duration,
            ConditionType::Duration => ConditionType::Tag,
        }
    }
}

/// A file format.
#[derive(Debug, Clone, Copy, PartialEq, Eq, Structural, Default)]
pub enum FileFormat {
    /// FLAC
    #[default]
    Flac,
    /// MP3
    Mp3,
    /// Opus
    Opus,
    /// Ogg Vorbis
    Ogg,
    /// WAV
    Wav,
    /// AAC, also in M4A files
    Aac,
}

impl FileFormat {
    /// The words for it.
    pub open spec fn words(self) -> Seq<char> {
        match self {
            FileFormat::Flac => "FLAC"@,
            FileFormat::Mp3 => "MP3"@,
            FileFormat::Opus => "Opus"@,
            FileFormat::Ogg => "OGG"@,
            FileFormat::Wav => "WAV"@,
            FileFormat::Aac => "AAC"@,
        }
    }

    /// The words for it.
    pub fn label(&self) -> (r: &'static str)
        ensures
            r@ == self.words(),
    {
        match self {
            FileFormat::Flac => "FLAC",
            FileFormat::Mp3 => "MP3",
            FileFormat::Opus => "Opus",
            FileFormat::Ogg => "OGG",
            FileFormat::Wav => "WAV",
            FileFormat::Aac => "AAC",
        }
    }

    /// The one after this, round the end.
    #[verifier::allow_in_spec]
    pub fn next(self) -> Self
        returns
            (match self {
                FileFormat::Flac => FileFormat::Mp3,
                FileFormat::Mp3 => FileFormat::Opus,
                FileFormat::Opus => FileFormat::Ogg,
                FileFormat::Ogg => FileFormat::Wav,
                FileFormat::Wav => FileFormat::Aac,
                FileFormat::Aac => FileFormat::Flac,
            }),
    {
        match self {
            FileFormat::Flac => FileFormat::Mp3,
            FileFormat::Mp3 => FileFormat::Opus,
            FileFormat::Opus => FileFormat::Ogg,
            FileFormat::Ogg => FileFormat::Wav,
            FileFormat::Wav => FileFormat::Aac,
            FileFormat::Aac => FileFormat::Flac,
        }
    }

    /// The one before this, round the end.
    #[verifier::allow_in_spec]
    pub fn prev(self) -> Self
        returns
            (match self {
                FileFormat::Flac => FileFormat::Aac,
                FileFormat::Mp3 => FileFormat::Flac,
                FileFormat::Opus => FileFormat::Mp3,
                FileFormat::Ogg => FileFormat::Opus,
                FileFormat::Wav => FileFormat::Ogg,
                FileFormat::Aac => FileFormat::Wav,
            }),
    {
        match self {
            FileFormat::Flac => FileFormat::Aac,
            FileFormat::Mp3 => FileFormat::Flac,
            FileFormat::Opus => FileFormat::Mp3,
            FileFormat::Ogg => FileFormat::Opus,
            FileFormat::Wav => FileFormat::Ogg,
            FileFormat::Aac => FileFormat::Wav,
        }
    }

    /// Whether a file type in lower case is of the format.
    pub open spec fn is_of(self, file_type: Seq<char>) -> bool {
        match self {
            FileFormat::Flac => file_type == "flac"@,
            FileFormat::Mp3 => file_type == "mp3"@,
            FileFormat::Opus => file_type == "opus"@,
            FileFormat::Ogg => file_type == "ogg"@,
            FileFormat::Wav => file_type == "wav"@,
            FileFormat::Aac => file_type == "aac"@ || file_type == "m4a"@,
        }
    }

    /// Whether a file type in lower case is of the format.
    pub fn matches(&self, file_type: &str) -> (r: bool)
        ensures
            r == self.is_of(file_type@),
    {
        match self {
            FileFormat::Flac => text::same(file_type, "flac"),
            FileFormat::Mp3 => text::same(file_type, "mp3"),
            FileFormat::Opus => text::same(file_type, "opus"),
            FileFormat::Ogg => text::same(file_type, "ogg"),
            FileFormat::Wav => text::same(file_type, "wav"),
            FileFormat::Aac => text::same(file_type, "aac") || text::same(file_type, "m4a"),
        }
    }
}

/// A category of file types.
#[derive(Debug, Clone, Copy, PartialEq, Eq, Structural, Default)]
pub enum FileTypeCategory {
    /// Every type
    #[default]
    Any,
    /// Types without loss
    Lossless,
    /// Types with loss
    Lossy,
    /// One format
    Specific(FileFormat),
}

/// Whether a file type in lower case is without loss.
pub open spec fn lossless_type(t: Seq<char>) -> bool {
    t == "flac"@ || t == "wav"@ || t == "alac"@ || t == "aiff"@ || t == "ape"@
}

/// Whether a file type in lower case is with loss.
pub open spec fn lossy_type(t: Seq<char>) -> bool {
    t == "mp3"@ || t == "opus"@ || t == "ogg"@ || t == "aac"@ || t == "m4a"@
}

impl FileTypeCategory {
    /// The words for it.
    pub open spec fn words(self) -> Seq<char> {
        match self {
            FileTypeCategory::Any => "Any"@,
            FileTypeCategory::Lossless => "Lossless"@,
            FileTypeCategory::Lossy => "Lossy"@,
            FileTypeCategory::Specific(f) => f.words(),
        }
    }

    /// The words for it.
    pub fn label(&self) -> (r: &'static str)
        ensures
            r@ == self.words(),
    {
        match self {
            FileTypeCategory::Any => "Any",
            FileTypeCategory::Lossless => "Lossless",
            FileTypeCategory::Lossy => "Lossy",
            FileTypeCategory::Specific(f) => f.label(),
        }
    }

    /// The one after this, through all formats and round the end.
    #[verifier::allow_in_spec]
    pub fn next(self) -> Self
        returns
            (match self {
                FileTypeCategory::Any => FileTypeCategory::Lossless,
                FileTypeCategory::Lossless => FileTypeCategory::Lossy,
                FileTypeCategory::Lossy => FileTypeCategory::Specific(FileFormat::Flac),
                FileTypeCategory::Specific(f) => if f.next() == FileFormat::Flac {
                    FileTypeCategory::Any
                } else {
                    FileTypeCategory::Specific(f.next())
                },
            }),
    {
        match self {
            FileTypeCategory::Any => FileTypeCategory::Lossless,
            FileTypeCategory::Lossless => FileTypeCategory::Lossy,
            FileTypeCategory::Lossy => FileTypeCategory::Specific(FileFormat::Flac),
            FileTypeCategory::Specific(f) => if f.next() == FileFormat::Flac {
                FileTypeCategory::Any
            } else {
                FileTypeCategory::Specific(f.next())
            },
        }
    }

    /// The one before this, through all formats and round the end.
    #[verifier::allow_in_spec]
    pub fn prev(self) -> Self
        returns
            (match self {
                FileTypeCategory::Any => FileTypeCategory::Specific(FileFormat::Aac),
                FileTypeCategory::Lossless => FileTypeCategory::Any,
                FileTypeCategory::Lossy => FileTypeCategory::Lossless,
                FileTypeCategory::Specific(f) => if f.prev() == FileFormat::Aac {
                    FileTypeCategory::Lossy
                } else {
                    FileTypeCategory::Specific(f.prev())
                },
            }),
    {
        match self {
            FileTypeCategory::Any => FileTypeCategory::Specific(FileFormat::Aac),
            FileTypeCategory::Lossless => FileTypeCategory::Any,
            FileTypeCategory::Lossy => FileTypeCategory::Lossless,
            FileTypeCategory::Specific(f) => if f.prev() == FileFormat::Aac {
                FileTypeCategory::Lossy
            } else {
                FileTypeCategory::Specific(f.prev())
            },
        }
    }

    /// Whether a file type is in the category, whatever its case.
    pub open spec fn includes(self, file_type: Seq<char>) -> bool {
        let t = lowercase(file_type);
        match self {
            FileTypeCategory::Any => true,
            FileTypeCategory::Lossless => lossless_type(t),
            FileTypeCategory::Lossy => lossy_type(t),
            FileTypeCategory::Specific(f) => f.is_of(t),
        }
    }

    /// Whether a file type is in the category, whatever its case.
    pub fn matches(&self, file_type: &str) -> (r: bool)
        ensures
            r == self.includes(file_type@),
    {
        let low: String = text::to_lowercase(file_type);
        let t: &str = low.as_str();
        match self {
            FileTypeCategory::Any => true,
            FileTypeCategory::Lossless => text::same(t, "flac") || text::same(t, "wav")
                || text::same(t, "alac") || text::same(t, "aiff") || text::same(t, "ape"),
            FileTypeCategory::Lossy => text::same(t, "mp3") || text::same(t, "opus")
                || text::same(t, "ogg") || text::same(t, "aac") || text::same(t, "m4a"),
            FileTypeCategory::Specific(f) => f.matches(t),
        }
    }
}

/// How a condition joins what stands before it.
#[derive(Debug, Clone, Copy, PartialEq, Eq, Structural, Default)]
pub enum LogicalOperator {
    /// Both
    #[default]
    And,
    /// Either
    Or,
    /// Either but not both
    Xor,
}

impl LogicalOperator {
    /// The words for it.
    pub open spec fn words(self) -> Seq<char> {
        match self {
            LogicalOperator::And => "AND"@,
            LogicalOperator::Or => "OR"@,
            LogicalOperator::Xor => "XOR"@,
        }
    }

    /// The words for it.
    pub fn label(&self) -> (r: &'static str)
        ensures
            r@ == self.words(),
    {
        match self {
            LogicalOperator::And => "AND",
            LogicalOperator::Or => "OR",
            LogicalOperator::Xor => "XOR",
        }
    }

    /// The one after this, round the end.
    #[verifier::allow_in_spec]
    pub fn next(self) -> Self
        returns
            (match self {
                LogicalOperator::And => LogicalOperator::Or,
                LogicalOperator::Or => LogicalOperator::Xor,
                LogicalOperator::Xor => LogicalOperator::And,
            }),
    {
        match self {
            LogicalOperator::And => LogicalOperator::Or,
            LogicalOperator::Or => LogicalOperator::Xor,
            LogicalOperator::Xor => LogicalOperator::And,
        }
    }

    /// What two answers come to.
    pub open spec fn joins(self, a: bool, b: bool) -> bool {
        match self {
            LogicalOperator::And => a && b,
            LogicalOperator::Or => a || b,
            LogicalOperator::Xor => a != b,
        }
    }
}

/// How the value of a tag is compared.
#[derive(Debug, Clone, Copy, PartialEq, Eq, Structural, Default)]
pub enum ComparisonOperator {
    /// The same, whatever the case
    #[default]
    Is,
    /// Not the same
    Not,
    /// Holding the text
    Contains,
    /// As a pattern, with `%` for any characters and `_` for one
    Like,
}

impl ComparisonOperator {
    /// The words for it.
    pub open spec fn words(self) -> Seq<char> {
        match self {
            ComparisonOperator::Is => "IS"@,
            ComparisonOperator::Not => "NOT"@,
            ComparisonOperator::Contains => "CONTAINS"@,
            ComparisonOperator::Like => "LIKE"@,
        }
    }

    /// The words for it.
    pub fn label(&self) -> (r: &'static str)
        ensures
            r@ == self.words(),
    {
        match self {
            ComparisonOperator::Is => "IS",
            ComparisonOperator::Not => "NOT",
            ComparisonOperator::Contains => "CONTAINS",
            ComparisonOperator::Like => "LIKE",
        }
    }

    /// The one after this, round the end.
    #[verifier::allow_in_spec]
    pub fn next(self) -> Self
        returns
            (match self {
                ComparisonOperator::Is => ComparisonOperator::Not,
                ComparisonOperator::Not => ComparisonOperator::Contains,
                ComparisonOperator::Contains => ComparisonOperator::Like,
                ComparisonOperator::Like => ComparisonOperator::Is,
            }),
    {
        match self {
            ComparisonOperator::Is => ComparisonOperator::Not,
            ComparisonOperator::Not => ComparisonOperator::Contains,
            ComparisonOperator::Contains => ComparisonOperator::Like,
            ComparisonOperator::Like => ComparisonOperator::Is,
        }
    }

    /// The one before this, round the end.
    #[verifier::allow_in_spec]
    pub fn prev(self) -> Self
        returns
            (match self {
                ComparisonOperator::Is => ComparisonOperator::Like,
                ComparisonOperator::Not => ComparisonOperator::Is,
                ComparisonOperator::Contains => ComparisonOperator::Not,
                ComparisonOperator::Like => ComparisonOperator::Contains,
            }),
    {
        match self {
            ComparisonOperator::Is => ComparisonOperator::Like,
            ComparisonOperator::Not => ComparisonOperator::Is,
            ComparisonOperator::Contains => ComparisonOperator::Not,
            ComparisonOperator::Like => ComparisonOperator::Contains,
        }
    }
}

/// A condition. Which fields count depends on what it is about: name,
/// comparison and value for a tag, the category for the file type, and the two
/// ends of the range for the others.
#[derive(Debug)]
pub struct SearchCondition {
    pub condition_type: ConditionType,
    /// How it joins the conditions before it. The first joins nothing
    pub operator: LogicalOperator,
    pub tag_name: TextInputState,
    pub comparison: ComparisonOperator,
    pub value: TextInputState,
    pub file_type_category: FileTypeCategory,
    /// In Hz, kbps or seconds
    pub range_min: TextInputState,
    pub range_max: TextInputState,
}

/// The model of a [`SearchCondition`].
pub struct ConditionModel {
    pub condition_type: ConditionType,
    pub operator: LogicalOperator,
    pub tag_name: TextInputModel,
    pub comparison: ComparisonOperator,
    pub value: TextInputModel,
    pub file_type_category: FileTypeCategory,
    pub range_min: TextInputModel,
    pub range_max: TextInputModel,
}

impl DeepView for SearchCondition {
    type V = ConditionModel;

    open spec fn deep_view(&self) -> ConditionModel {
        ConditionModel {
            condition_type: self.condition_type,
            operator: self.operator,
            tag_name: self.tag_name@,
            comparison: self.comparison,
            value: self.value@,
            file_type_category: self.file_type_category,
            range_min: self.range_min@,
            range_max: self.range_max@,
        }
    }
}

impl ConditionModel {
    /// An empty condition.
    pub open spec fn fresh() -> Self {
        ConditionModel {
            condition_type: ConditionType::Tag,
            operator: LogicalOperator::And,
            tag_name: TextInputModel::empty(),
            comparison: ComparisonOperator::Is,
            value: TextInputModel::empty(),
            file_type_category: FileTypeCategory::Any,
            range_min: TextInputModel::empty(),
            range_max: TextInputModel::empty(),
        }
    }

    /// The cursors of all texts stand in them.
    pub open spec fn wf(self) -> bool {
        self.tag_name.wf() && self.value.wf() && self.range_min.wf() && self.range_max.wf()
    }
}

impl SearchCondition {
    /// An empty condition.
    pub fn new() -> (r: Self)
        ensures
            r.deep_view() == ConditionModel::fresh(),
            r.deep_view().wf(),
    {
        SearchCondition {
            condition_type: ConditionType::Tag,
            operator: LogicalOperator::And,
            tag_name: TextInputState::new(),
            comparison: ComparisonOperator::Is,
            value: TextInputState::new(),
            file_type_category: FileTypeCategory::Any,
            range_min: TextInputState::new(),
            range_max: TextInputState::new(),
        }
    }
}

/// What the screen shows.
#[derive(Debug, Clone, Copy, PartialEq, Eq, Structural, Default)]
pub enum TagSearchMode {
    /// The conditions
    #[default]
    QueryBuilder,
    /// What was found
    Results,
}

/// The part of a condition that has the focus, or a button.
#[derive(Debug, Clone, Copy, PartialEq, Eq, Structural, Default)]
pub enum QueryFieldFocus {
    Operator,
    ConditionType,
    #[default]
    TagName,
    Comparison,
    Value,
    RangeMin,
    RangeMax,
    FileTypeCategory,
    AddCondition,
    SearchButton,
}

/// What the screen asks for.
#[derive(Debug)]
pub enum TagSearchAction {
    /// Nothing
    Nothing,
    /// Close
    Cancel,
    /// Go to the next view
    CycleNext,
    /// Go to the previous view
    CyclePrev,
    /// Search
    ExecuteSearch,
    /// Edit the tags of a file
    EditAudioFile(AudioFile),
}

/// The model of a [`TagSearchAction`].
pub enum SearchAnswer {
    Nothing,
    Cancel,
    CycleNext,
    CyclePrev,
    ExecuteSearch,
    EditAudioFile(AudioFileModel),
}

impl DeepView for TagSearchAction {
    type V = SearchAnswer;

    open spec fn deep_view(&self) -> SearchAnswer {
        match self {
            TagSearchAction::Nothing => SearchAnswer::Nothing,
            TagSearchAction::Cancel => SearchAnswer::Cancel,
            TagSearchAction::CycleNext => SearchAnswer::CycleNext,
            TagSearchAction::CyclePrev => SearchAnswer::CyclePrev,
            TagSearchAction::ExecuteSearch => SearchAnswer::ExecuteSearch,
            TagSearchAction::EditAudioFile(f) => SearchAnswer::EditAudioFile(f.deep_view()),
        }
    }
}

/// The modals of the screen.
#[derive(Debug, Clone, Copy, PartialEq, Eq, Structural)]
pub enum TagSearchModal {
    /// Nothing was found
    NoResults,
    /// The tags of all results are being read
    GatheringTags,
}

/// Going on and back comes to the same category, and going on nine times comes
/// round.
pub proof fn law_categories_come_round(c: FileTypeCategory)
    ensures
        c.next().prev() == c,
        c.prev().next() == c,
        c.next().next().next().next().next().next().next().next().next() == c,
{
}

/// Going on and back comes to the same format and to the same comparison.
pub proof fn law_next_then_prev(f: FileFormat, c: ComparisonOperator)
    ensures
        f.next().prev() == f,
        f.prev().next() == f,
        c.next().prev() == c,
        c.prev().next() == c,
{
}

} // verus!
