//! Opening the tag editor: what it is opened on, under what name its
//! transaction runs, and what is said.

use vstd::prelude::*;

use crate::tag_editor::types::TagEditorSource;
use crate::text;

verus! {

/// The name of the transaction of a single file.
pub open spec fn single_label(source: TagEditorSource) -> Seq<char> {
    match source {
        TagEditorSource::CorpusBrowser => "Tag edits"@,
        TagEditorSource::DirectoryEdit => "Directory tag edits"@,
        TagEditorSource::TagSearch => "Tag search edits"@,
        TagEditorSource::HealthModal => "Health tag edits"@,
    }
}

/// The name of the transaction of several files.
pub open spec fn bulk_label(source: TagEditorSource) -> Seq<char> {
    match source {
        TagEditorSource::CorpusBrowser => "Bulk tag edits"@,
        TagEditorSource::DirectoryEdit => "Directory tag edits"@,
        TagEditorSource::TagSearch => "Tag search edits"@,
        TagEditorSource::HealthModal => "Health tag edits"@,
    }
}

/// The name of the transaction of a single file.
pub fn single_transaction_label(source: TagEditorSource) -> (r: &'static str)
    ensures
        r@ == single_label(source),
{
    match source {
        TagEditorSource::CorpusBrowser => "Tag edits",
        TagEditorSource::DirectoryEdit => "Directory tag edits",
        TagEditorSource::TagSearch => "Tag search edits",
        TagEditorSource::HealthModal => "Health tag edits",
    }
}

/// The name of the transaction of several files.
pub fn bulk_transaction_label(source: TagEditorSource) -> (r: &'static str)
    ensures
        r@ == bulk_label(source),
{
    match source {
        TagEditorSource::CorpusBrowser => "Bulk tag edits",
        TagEditorSource::DirectoryEdit => "Directory tag edits",
        TagEditorSource::TagSearch => "Tag search edits",
        TagEditorSource::HealthModal => "Health tag edits",
    }
}

/// The name of the transaction of all results of a search.
pub fn search_bulk_transaction_label() -> (r: &'static str)
    ensures
        r@ == "Tag search bulk edit"@,
{
    "Tag search bulk edit"
}

/// What to do about a path.
#[derive(Debug)]
pub enum EditorLaunch {
    /// Go back to the health view with a message
    Abort { message: String },
    /// Stay, with a message
    Stay { message: String },
    /// Edit the one file
    Single { label: String, message: Option<String> },
    /// Edit several files, from one of them on
    Bulk { label: String, start: usize, message: Option<String> },
    /// Edit all files of a directory as one
    Directory { label: String },
}

/// The model of an [`EditorLaunch`].
pub enum LaunchModel {
    Abort { message: Seq<char> },
    Stay { message: Seq<char> },
    Single { label: Seq<char>, message: Option<Seq<char>> },
    Bulk { label: Seq<char>, start: usize, message: Option<Seq<char>> },
    Directory { label: Seq<char> },
}

impl DeepView for EditorLaunch {
    type V = LaunchModel;

    open spec fn deep_view(&self) -> LaunchModel {
        match self {
            EditorLaunch::Abort { message } => LaunchModel::Abort { message: message@ },
            EditorLaunch::Stay { message } => LaunchModel::Stay { message: message@ },
            EditorLaunch::Single { label, message } => LaunchModel::Single {
                label: label@,
                message: message.deep_view(),
            },
            EditorLaunch::Bulk { label, start, message } => LaunchModel::Bulk {
                label: label@,
                start: *start,
                message: message.deep_view(),
            },
            EditorLaunch::Directory { label } => LaunchModel::Directory { label: label@ },
        }
    }
}

/// What to do about a path of the corpus browser: whether it lies in the
/// corpus, how many files are indexed there, and which of them is in hand.
pub open spec fn path_launch(path: Seq<char>, in_corpus: bool, files: usize, selected: usize) -> LaunchModel {
    if !in_corpus {
        LaunchModel::Abort { message: "Path not in corpus: "@ + path }
    } else if files == 0 {
        LaunchModel::Abort { message: "No indexed files at: "@ + path }
    } else if files == 1 {
        LaunchModel::Single {
            label: single_label(TagEditorSource::CorpusBrowser),
            message: Some("Editing tags for "@ + path),
        }
    } else {
        LaunchModel::Bulk {
            label: bulk_label(TagEditorSource::CorpusBrowser),
            start: selected,
            message: Some("Editing tags for "@ + path),
        }
    }
}

/// What to do about a path of the corpus browser.
pub fn start_tag_editor_for_path(path: &str, in_corpus: bool, files: usize, selected: usize) -> (r: EditorLaunch)
    ensures
        r.deep_view() == path_launch(path@, in_corpus, files, selected),
{
    if !in_corpus {
        EditorLaunch::Abort { message: text::cat2("Path not in corpus: ", path) }
    } else if files == 0 {
        EditorLaunch::Abort { message: text::cat2("No indexed files at: ", path) }
    } else if files == 1 {
        EditorLaunch::Single {
            label: single_transaction_label(TagEditorSource::CorpusBrowser).to_owned(),
            message: Some(text::cat2("Editing tags for ", path)),
        }
    } else {
        EditorLaunch::Bulk {
            label: bulk_transaction_label(TagEditorSource::CorpusBrowser).to_owned(),
            start: selected,
            message: Some(text::cat2("Editing tags for ", path)),
        }
    }
}

/// What to do about a directory.
pub open spec fn directory_launch(directory: Seq<char>, in_corpus: bool, files: usize) -> LaunchModel {
    if !in_corpus {
        LaunchModel::Stay { message: "Directory not in corpus: "@ + directory }
    } else if files == 0 {
        LaunchModel::Stay { message: "No indexed files found in "@ + directory }
    } else {
        LaunchModel::Directory { label: "Directory tag edits"@ }
    }
}

/// What to do about a directory.
pub fn open_unified_tag_editor_for_directory(directory: &str, in_corpus: bool, files: usize) -> (r: EditorLaunch)
    ensures
        r.deep_view() == directory_launch(directory@, in_corpus, files),
{
    if !in_corpus {
        EditorLaunch::Stay { message: text::cat2("Directory not in corpus: ", directory) }
    } else if files == 0 {
        EditorLaunch::Stay { message: text::cat2("No indexed files found in ", directory) }
    } else {
        EditorLaunch::Directory { label: "Directory tag edits".to_owned() }
    }
}

/// The editor opens exactly where there are indexed files in the corpus.
pub proof fn law_editor_opens_on_files(path: Seq<char>, in_corpus: bool, files: usize, selected: usize)
    ensures
        (path_launch(path, in_corpus, files, selected) is Single || path_launch(
            path,
            in_corpus,
            files,
            selected,
        ) is Bulk) <==> in_corpus && files > 0,
        directory_launch(path, in_corpus, files) is Directory <==> in_corpus && files > 0,
{
}

/// One file is edited by itself, several as many, from the one that was selected;
/// a path outside the corpus, or without files, opens no editor and is named.
pub proof fn law_launch_goes_by_the_files(
    path: Seq<char>,
    in_corpus: bool,
    files: usize,
    selected: usize,
)
    ensures
        ({
            let r = path_launch(path, in_corpus, files, selected);
            &&& r is Single <==> in_corpus && files == 1
            &&& r is Bulk <==> in_corpus && files > 1
            &&& r is Abort <==> !in_corpus || files == 0
            &&& r is Bulk ==> r->start == selected
            &&& r is Abort ==> r->Abort_message.skip(r->Abort_message.len() - path.len()) == path
        }),
        directory_launch(path, in_corpus, files) is Stay <==> !in_corpus || files == 0,
{
    let r = path_launch(path, in_corpus, files, selected);
    if !in_corpus {
        assert(("Path not in corpus: "@ + path).skip("Path not in corpus: "@.len() as int) =~= path);
    } else if files == 0 {
        assert(("No indexed files at: "@ + path).skip("No indexed files at: "@.len() as int)
            =~= path);
    }
}

} // verus!
