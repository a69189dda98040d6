//! Tags that were changed behind the index: the files, which of them to sync,
//! and which side to accept.

use vstd::prelude::*;

use crate::input::InputAction;
use crate::lists::{chosen, lemma_chosen_start, lemma_chosen_step, places, same_places, tally};
use crate::operator_decisions::ConfirmationGesture;
use crate::screen::{ink, line_of, list2, list3, list7, nothing, put, span, Color, Line, LineModel, Rect, Span, SpanModel, Style};
use crate::text::{self, decimal, holds, lowercase, trimmed};
use crate::text_input::{TextInputModel, TextInputState};
use crate::widgets::{first_places, marker_text, toggled, toggled_all, BulkSelectionState, FocusPane};

verus! {

/// Which side is newer.
#[derive(Debug, Clone, Copy, PartialEq, Eq, Structural)]
pub enum OobSyncDirection {
    /// The file holds what the index should
    DiskToIndex,
    /// The index holds what the file should
    IndexToDisk,
}

/// A tag on which file and index differ.
#[derive(Debug)]
pub struct TagMismatch {
    pub field: String,
    pub db_value: Option<String>,
    pub disk_value: Option<String>,
}

/// The model of a [`TagMismatch`].
pub struct TagMismatchModel {
    pub field: Seq<char>,
    pub db_value: Option<Seq<char>>,
    pub disk_value: Option<Seq<char>>,
}

impl DeepView for TagMismatch {
    type V = TagMismatchModel;

    open spec fn deep_view(&self) -> TagMismatchModel {
        TagMismatchModel {
            field: self.field@,
            db_value: self.db_value.deep_view(),
            disk_value: self.disk_value.deep_view(),
        }
    }
}

/// A file that can be synced.
#[derive(Debug)]
pub struct OobSyncFile {
    pub path: String,
    pub direction: OobSyncDirection,
    pub mismatches: Vec<TagMismatch>,
}

/// The model of an [`OobSyncFile`].
pub struct OobSyncFileModel {
    pub path: Seq<char>,
    pub direction: OobSyncDirection,
    pub mismatches: Seq<TagMismatchModel>,
}

impl DeepView for OobSyncFile {
    type V = OobSyncFileModel;

    open spec fn deep_view(&self) -> OobSyncFileModel {
        OobSyncFileModel {
            path: self.path@,
            direction: self.direction,
            mismatches: self.mismatches.deep_view(),
        }
    }
}

/// The buttons.
#[derive(Debug, Clone, Copy, PartialEq, Eq, Structural)]
pub enum OobSyncButton {
    AcceptDisk,
    AcceptDb,
    Cancel,
}

impl OobSyncButton {
    /// The button to the left, if there is one.
    #[verifier::allow_in_spec]
    pub fn left(self) -> Self
        returns
            (match self {
                OobSyncButton::AcceptDisk => OobSyncButton::AcceptDisk,
                OobSyncButton::AcceptDb => OobSyncButton::AcceptDisk,
                OobSyncButton::Cancel => OobSyncButton::AcceptDb,
            }),
    {
        match self {
            OobSyncButton::AcceptDisk => OobSyncButton::AcceptDisk,
            OobSyncButton::AcceptDb => OobSyncButton::AcceptDisk,
            OobSyncButton::Cancel => OobSyncButton::AcceptDb,
        }
    }

    /// The button to the right, if there is one.
    #[verifier::allow_in_spec]
    pub fn right(self) -> Self
        returns
            (match self {
                OobSyncButton::AcceptDisk => OobSyncButton::AcceptDb,
                OobSyncButton::AcceptDb => OobSyncButton::Cancel,
                OobSyncButton::Cancel => OobSyncButton::Cancel,
            }),
    {
        match self {
            OobSyncButton::AcceptDisk => OobSyncButton::AcceptDb,
            OobSyncButton::AcceptDb => OobSyncButton::Cancel,
            OobSyncButton::Cancel => OobSyncButton::Cancel,
        }
    }
}

/// What the screen asks for.
#[derive(Debug, Clone, Copy, PartialEq, Eq, Structural)]
pub enum OobSyncAction {
    /// Nothing
    Nothing,
    /// Take the tags of the files into the index
    AcceptDisk,
    /// Write the tags of the index to the files
    AcceptDb,
    /// Go back
    Cancel,
}

/// Where the buttons were drawn.
#[derive(Debug)]
pub struct ButtonRects {
    pub rects: Vec<(OobSyncButton, Rect)>,
}

impl View for ButtonRects {
    type V = Seq<(OobSyncButton, Rect)>;

    open spec fn view(&self) -> Seq<(OobSyncButton, Rect)> {
        self.rects@
    }
}

/// The first button from `from` on that covers a cell.
pub open spec fn button_at(rects: Seq<(OobSyncButton, Rect)>, from: nat, x: u16, y: u16) -> Option<
    OobSyncButton,
>
    decreases rects.len() - from,
{
    if from >= rects.len() {
        None
    } else if rects[from as int].1.covers(x, y) {
        Some(rects[from as int].0)
    } else {
        button_at(rects, from + 1, x, y)
    }
}

impl ButtonRects {
    /// No buttons yet.
    pub fn new() -> (r: Self)
        ensures
            r@ == Seq::<(OobSyncButton, Rect)>::empty(),
    {
        ButtonRects { rects: Vec::new() }
    }

    /// Notes where a button was drawn.
    pub fn set(&mut self, button: OobSyncButton, rect: Rect)
        ensures
            final(self)@ == old(self)@.push((button, rect)),
    {
        self.rects.push((button, rect));
    }

    /// Forgets all buttons.
    pub fn clear(&mut self)
        ensures
            final(self)@ == Seq::<(OobSyncButton, Rect)>::empty(),
    {
        self.rects.clear();
    }

    /// The button that covers a cell.
    pub fn hit_test(&self, x: u16, y: u16) -> (r: Option<OobSyncButton>)
        ensures
            r == button_at(self@, 0, x, y),
    {
        let mut i: usize = 0;
        while i < self.rects.len()
            invariant
                i <= self.rects.len(),
                button_at(self@, 0, x, y) == button_at(self@, i as nat, x, y),
            decreases self.rects.len() - i,
        {
            if self.rects[i].1.contains(x, y) {
                return Some(self.rects[i].0);
            }
            i = i + 1;
        }
        None
    }
}

/// The screen.
#[derive(Debug)]
pub struct OobSyncState {
    /// The files
    pub files: Vec<OobSyncFile>,
    /// The file in hand
    pub current_file: usize,
    /// The first file that is shown
    pub scroll: usize,
    /// The button in hand
    pub selected_button: OobSyncButton,
    /// The pane that has the focus
    pub focus_pane: FocusPane,
    /// Where the buttons were drawn
    pub button_rects: ButtonRects,
    /// Which files are selected
    pub selection: BulkSelectionState,
    /// The filter as typed
    pub filter_input: TextInputState,
    /// Whether the filter is being typed
    pub filter_active: bool,
    /// The filter that is applied
    pub filter_text: Option<String>,
    /// The files that pass it
    pub filtered_indices: Option<Vec<usize>>,
}

/// The model of an [`OobSyncState`].
pub struct OobSyncModel {
    pub files: Seq<OobSyncFileModel>,
    pub current_file: usize,
    pub scroll: usize,
    pub selected_button: OobSyncButton,
    pub focus_pane: FocusPane,
    pub button_rects: Seq<(OobSyncButton, Rect)>,
    pub selection: Set<usize>,
    pub filter_input: TextInputModel,
    pub filter_active: bool,
    pub filter_text: Option<Seq<char>>,
    pub filtered_indices: Option<Seq<usize>>,
}

impl View for OobSyncState {
    type V = OobSyncModel;

    open spec fn view(&self) -> OobSyncModel {
        OobSyncModel {
            files: self.files.deep_view(),
            current_file: self.current_file,
            scroll: self.scroll,
            selected_button: self.selected_button,
            focus_pane: self.focus_pane,
            button_rects: self.button_rects@,
            selection: self.selection@,
            filter_input: self.filter_input@,
            filter_active: self.filter_active,
            filter_text: self.filter_text.deep_view(),
            filtered_indices: match self.filtered_indices {
                Some(v) => Some(v@),
                None => None,
            },
        }
    }
}

/// The condition of going one way.
pub open spec fn going(direction: OobSyncDirection) -> spec_fn(OobSyncFileModel) -> bool {
    |f: OobSyncFileModel| f.direction == direction
}

/// Whether the path of a file holds a query, whatever the case.
pub open spec fn passes(f: OobSyncFileModel, query: Seq<char>) -> bool {
    holds(lowercase(f.path), query)
}

/// The condition that the file at a place passes a query.
pub open spec fn passing(files: Seq<OobSyncFileModel>, query: Seq<char>) -> spec_fn(int) -> bool {
    |i: int| passes(files[i], query)
}

impl OobSyncModel {
    /// The screen is in order: the file in hand is one of the files, the cursor
    /// of the filter stands in its text, and a filter that is applied lists
    /// exactly the files that pass it.
    pub open spec fn wf(self) -> bool {
        &&& self.files.len() <= usize::MAX
        &&& self.current_file < self.files.len() || self.current_file == 0
        &&& self.filter_input.wf()
        &&& self.filter_text is Some <==> self.filtered_indices is Some
        &&& self.filter_text is Some ==> self.filtered_indices->0 == places(
            self.files.len(),
            passing(self.files, self.filter_text->0),
        )
    }

    /// How many files go one way.
    pub open spec fn count(self, direction: OobSyncDirection) -> nat {
        tally(self.files, going(direction))
    }

    /// The places of the files that pass the filter.
    pub open spec fn shown(self) -> Seq<usize> {
        match self.filtered_indices {
            Some(v) => v,
            None => places(self.files.len(), |i: int| true),
        }
    }

    /// The screen as it opens: every file selected, and the button that has
    /// something to do.
    pub open spec fn opened(files: Seq<OobSyncFileModel>) -> Self {
        OobSyncModel {
            files,
            current_file: 0,
            scroll: 0,
            selected_button: if tally(files, going(OobSyncDirection::DiskToIndex)) > 0 {
                OobSyncButton::AcceptDisk
            } else {
                OobSyncButton::AcceptDb
            },
            focus_pane: FocusPane::List,
            button_rects: Seq::empty(),
            selection: first_places(files.len()),
            filter_input: TextInputModel::empty(),
            filter_active: false,
            filter_text: None,
            filtered_indices: None,
        }
    }

    /// The filter taken off.
    pub open spec fn unfiltered(self) -> Self {
        OobSyncModel {
            filter_text: None,
            filtered_indices: None,
            filter_active: false,
            filter_input: self.filter_input.with_value(Seq::empty()).focus(false),
            ..self
        }
    }

    /// The filter as typed applied. A blank one takes it off.
    pub open spec fn filtered(self) -> Self {
        let query = lowercase(trimmed(self.filter_input.value));
        if query.len() == 0 {
            self.unfiltered()
        } else {
            OobSyncModel {
                filtered_indices: Some(places(self.files.len(), passing(self.files, query))),
                filter_text: Some(query),
                filter_active: false,
                filter_input: self.filter_input.focus(false),
                ..self
            }
        }
    }

    /// What Enter on a button asks for. A side that no file is waiting for is
    /// not accepted.
    pub open spec fn confirmed(self) -> OobSyncAction {
        match self.selected_button {
            OobSyncButton::AcceptDisk => if self.count(OobSyncDirection::DiskToIndex) > 0 {
                OobSyncAction::AcceptDisk
            } else {
                OobSyncAction::Nothing
            },
            OobSyncButton::AcceptDb => if self.count(OobSyncDirection::IndexToDisk) > 0 {
                OobSyncAction::AcceptDb
            } else {
                OobSyncAction::Nothing
            },
            OobSyncButton::Cancel => OobSyncAction::Cancel,
        }
    }

    /// The screen after an input, and what it asks for.
    pub open spec fn step(self, action: InputAction) -> (Self, OobSyncAction) {
        let nothing = OobSyncAction::Nothing;
        if self.filter_active {
            match action {
                InputAction::Confirm => (self.filtered(), nothing),
                InputAction::Cancel => (self.unfiltered(), nothing),
                _ => (
                    OobSyncModel { filter_input: self.filter_input.step(action), ..self },
                    nothing,
                ),
            }
        } else {
            match action {
                InputAction::FocusUp => (
                    OobSyncModel { focus_pane: self.focus_pane.prev(), ..self },
                    nothing,
                ),
                InputAction::FocusDown => (
                    OobSyncModel { focus_pane: self.focus_pane.next(), ..self },
                    nothing,
                ),
                InputAction::TextHome => (
                    OobSyncModel { selection: toggled_all(self.selection, self.shown()), ..self },
                    nothing,
                ),
                InputAction::OpenFilter => (
                    OobSyncModel {
                        filter_active: true,
                        filter_input: self.filter_input.focus(true),
                        ..self
                    },
                    nothing,
                ),
                InputAction::Toggle => (
                    if self.files.len() == 0 {
                        self
                    } else {
                        OobSyncModel { selection: toggled(self.selection, self.current_file), ..self }
                    },
                    nothing,
                ),
                InputAction::NavUp => (
                    if self.current_file > 0 {
                        OobSyncModel { current_file: (self.current_file - 1) as usize, ..self }
                    } else {
                        self
                    },
                    nothing,
                ),
                InputAction::NavDown => (
                    if self.current_file + 1 < self.files.len() {
                        OobSyncModel { current_file: (self.current_file + 1) as usize, ..self }
                    } else {
                        self
                    },
                    nothing,
                ),
                InputAction::NavLeft => (
                    if self.focus_pane == FocusPane::Buttons {
                        OobSyncModel { selected_button: self.selected_button.left(), ..self }
                    } else {
                        self
                    },
                    nothing,
                ),
                InputAction::NavRight => (
                    if self.focus_pane == FocusPane::Buttons {
                        OobSyncModel { selected_button: self.selected_button.right(), ..self }
                    } else {
                        self
                    },
                    nothing,
                ),
                InputAction::Confirm => (
                    self,
                    if self.focus_pane == FocusPane::Buttons {
                        self.confirmed()
                    } else {
                        nothing
                    },
                ),
                InputAction::Cancel => (self, OobSyncAction::Cancel),
                _ => (self, nothing),
            }
        }
    }

    /// The screen after a click on a cell, and what it asks for.
    pub open spec fn clicked(self, x: u16, y: u16) -> (Self, Option<OobSyncAction>) {
        match button_at(self.button_rects, 0, x, y) {
            Some(b) => (
                OobSyncModel { focus_pane: FocusPane::Buttons, selected_button: b, ..self },
                Some(
                    match b {
                        OobSyncButton::AcceptDisk => OobSyncAction::AcceptDisk,
                        OobSyncButton::AcceptDb => OobSyncAction::AcceptDb,
                        OobSyncButton::Cancel => OobSyncAction::Cancel,
                    },
                ),
            ),
            None => (self, None),
        }
    }
}

/// How many files go one way.
fn count_going(files: &Vec<OobSyncFile>, direction: OobSyncDirection) -> (r: usize)
    ensures
        r == tally(files.deep_view(), going(direction)),
{
    let ghost s = files.deep_view();
    proof {
        lemma_chosen_start(s, going(direction));
    }
    let mut n: usize = 0;
    let mut i: usize = 0;
    while i < files.len()
        invariant
            i <= files.len(),
            n <= i,
            s == files.deep_view(),
            n == chosen(s.take(i as int), going(direction)).len(),
        decreases files.len() - i,
    {
        proof {
            lemma_chosen_step(s, i as int, going(direction));
        }
        if files[i].direction == direction {
            n = n + 1;
        }
        i = i + 1;
    }
    proof {
        assert(s.take(s.len() as int) =~= s);
    }
    n
}

impl OobSyncState {
    /// The path of the file in hand.
    pub fn selected_path(&self) -> (r: Option<&str>)
        ensures
            r is Some <==> self@.current_file < self@.files.len(),
            r is Some ==> r->0@ == self@.files[self@.current_file as int].path,
    {
        if self.current_file < self.files.len() {
            Some(self.files[self.current_file].path.as_str())
        } else {
            None
        }
    }

    /// Opens the screen on some files.
    pub fn new(files: Vec<OobSyncFile>) -> (r: Self)
        ensures
            r@ == OobSyncModel::opened(files.deep_view()),
            r@.wf(),
    {
        let n: usize = files.len();
        let mut selection: BulkSelectionState = BulkSelectionState::new();
        selection.select_all(n);
        let selected_button: OobSyncButton = if count_going(
            &files,
            OobSyncDirection::DiskToIndex,
        ) > 0 {
            OobSyncButton::AcceptDisk
        } else {
            OobSyncButton::AcceptDb
        };
        OobSyncState {
            files,
            current_file: 0,
            scroll: 0,
            selected_button,
            focus_pane: FocusPane::List,
            button_rects: ButtonRects::new(),
            selection,
            filter_input: TextInputState::new(),
            filter_active: false,
            filter_text: None,
            filtered_indices: None,
        }
    }

    /// The places of the files that pass the filter.
    pub fn get_filtered_indices(&self) -> (r: Vec<usize>)
        ensures
            r@ == self@.shown(),
    {
        match &self.filtered_indices {
            Some(v) => same_places(v),
            None => {
                let ghost all = |i: int| true;
                let mut out: Vec<usize> = Vec::new();
                for i in 0..self.files.len()
                    invariant
                        all == (|i: int| true),
                        out@ == places(i as nat, all),
                {
                    out.push(i);
                }
                out
            },
        }
    }

    /// Applies the filter as typed.
    pub fn apply_filter(&mut self)
        requires
            old(self)@.wf(),
        ensures
            final(self)@ == old(self)@.filtered(),
            final(self)@.wf(),
    {
        let query: String = text::to_lowercase(text::trim(self.filter_input.value()));
        if query.as_str().is_empty() {
            self.clear_filter();
        } else {
            let ghost s = self.files.deep_view();
            let mut found: Vec<usize> = Vec::new();
            let mut i: usize = 0;
            while i < self.files.len()
                invariant
                    i <= self.files.len(),
                    self@ == old(self)@,
                    s == self.files.deep_view(),
                    found@ == places(i as nat, passing(s, query@)),
                decreases self.files.len() - i,
            {
                if text::contains(
                    text::to_lowercase(self.files[i].path.as_str()).as_str(),
                    query.as_str(),
                ) {
                    found.push(i);
                }
                i = i + 1;
            }
            self.filtered_indices = Some(found);
            self.filter_text = Some(query);
            self.filter_active = false;
            self.filter_input.focused = false;
        }
    }

    /// Takes the filter off.
    pub fn clear_filter(&mut self)
        requires
            old(self)@.wf(),
        ensures
            final(self)@ == old(self)@.unfiltered(),
            final(self)@.wf(),
    {
        self.filter_text = None;
        self.filtered_indices = None;
        self.filter_active = false;
        self.filter_input.focused = false;
        self.filter_input.clear();
    }

    /// How many files hold what the index should.
    pub fn disk_to_index_count(&self) -> (r: usize)
        ensures
            r == self@.count(OobSyncDirection::DiskToIndex),
    {
        count_going(&self.files, OobSyncDirection::DiskToIndex)
    }

    /// How many files should hold what the index does.
    pub fn index_to_disk_count(&self) -> (r: usize)
        ensures
            r == self@.count(OobSyncDirection::IndexToDisk),
    {
        count_going(&self.files, OobSyncDirection::IndexToDisk)
    }

    /// Answers a click, which the operator has made. Returns what the clicked
    /// button asks for.
    pub fn handle_click(&mut self, x: u16, y: u16, _gesture: &ConfirmationGesture) -> (r: Option<
        OobSyncAction,
    >)
        ensures
            (final(self)@, r) == old(self)@.clicked(x, y),
    {
        match self.button_rects.hit_test(x, y) {
            Some(b) => {
                self.focus_pane = FocusPane::Buttons;
                self.selected_button = b;
                Some(
                    match b {
                        OobSyncButton::AcceptDisk => OobSyncAction::AcceptDisk,
                        OobSyncButton::AcceptDb => OobSyncAction::AcceptDb,
                        OobSyncButton::Cancel => OobSyncAction::Cancel,
                    },
                )
            },
            None => None,
        }
    }

    /// Answers an input.
    pub fn handle_input(&mut self, action: &InputAction) -> (r: OobSyncAction)
        requires
            old(self)@.wf(),
        ensures
            (final(self)@, r) == old(self)@.step(*action),
            final(self)@.wf(),
    {
        if self.filter_active {
            match action {
                InputAction::Confirm => {
                    self.apply_filter();
                },
                InputAction::Cancel => {
                    self.clear_filter();
                },
                _ => {
                    self.filter_input.handle_input(action);
                },
            }
            return OobSyncAction::Nothing;
        }
        match action {
            InputAction::FocusUp => {
                self.focus_pane = self.focus_pane.prev();
                OobSyncAction::Nothing
            },
            InputAction::FocusDown => {
                self.focus_pane = self.focus_pane.next();
                OobSyncAction::Nothing
            },
            InputAction::TextHome => {
                let shown: Vec<usize> = self.get_filtered_indices();
                self.selection.toggle_all_filtered(&shown);
                OobSyncAction::Nothing
            },
            InputAction::OpenFilter => {
                self.filter_active = true;
                self.filter_input.focused = true;
                OobSyncAction::Nothing
            },
            InputAction::Toggle => {
                if self.files.len() != 0 {
                    self.selection.toggle(self.current_file);
                }
                OobSyncAction::Nothing
            },
            InputAction::NavUp => {
                if self.current_file > 0 {
                    self.current_file = self.current_file - 1;
                }
                OobSyncAction::Nothing
            },
            InputAction::NavDown => {
                if self.files.len() > 0 && self.current_file < self.files.len() - 1 {
                    self.current_file = self.current_file + 1;
                }
                OobSyncAction::Nothing
            },
            InputAction::NavLeft => {
                if self.focus_pane == FocusPane::Buttons {
                    self.selected_button = self.selected_button.left();
                }
                OobSyncAction::Nothing
            },
            InputAction::NavRight => {
                if self.focus_pane == FocusPane::Buttons {
                    self.selected_button = self.selected_button.right();
                }
                OobSyncAction::Nothing
            },
            InputAction::Confirm => {
                if self.focus_pane == FocusPane::Buttons {
                    match self.selected_button {
                        OobSyncButton::AcceptDisk => if self.disk_to_index_count() > 0 {
                            OobSyncAction::AcceptDisk
                        } else {
                            OobSyncAction::Nothing
                        },
                        OobSyncButton::AcceptDb => if self.index_to_disk_count() > 0 {
                            OobSyncAction::AcceptDb
                        } else {
                            OobSyncAction::Nothing
                        },
                        OobSyncButton::Cancel => OobSyncAction::Cancel,
                    }
                } else {
                    OobSyncAction::Nothing
                }
            },
            InputAction::Cancel => OobSyncAction::Cancel,
            _ => OobSyncAction::Nothing,
        }
    }
}

// ---------------------------------------------------------------------------
// What is shown
// ---------------------------------------------------------------------------

/// The title: how many files there are, which way they go, and how many pass
/// the filter.
pub open spec fn title_text(m: OobSyncModel) -> Seq<char> {
    let filter = if m.filter_text is Some {
        " [filtered: "@ + decimal(m.shown().len()) + "/"@ + decimal(m.files.len()) + "]"@
    } else {
        Seq::empty()
    };
    " OOB Tag Sync — "@ + decimal(m.files.len()) + " file"@ + (if m.files.len() == 1 {
        ""@
    } else {
        "s"@
    }) + " ("@ + decimal(m.count(OobSyncDirection::DiskToIndex)) + " disk→index, "@ + decimal(
        m.count(OobSyncDirection::IndexToDisk),
    ) + " index→disk)"@ + filter + " "@
}

/// The title of the list: how many files are selected, if any.
pub open spec fn list_title_text(m: OobSyncModel) -> Seq<char> {
    if m.selection.len() != 0 {
        "Files ("@ + decimal(m.selection.len()) + " selected)"@
    } else {
        "Files"@
    }
}

/// What stands before and behind the path of a file in the list.
pub open spec fn entry_marks(m: OobSyncModel, i: usize) -> (Seq<SpanModel>, Seq<SpanModel>) {
    let before = if m.selection.len() != 0 {
        seq![
            span(
                marker_text(m.selection, i) + " "@,
                if m.selection.contains(i) {
                    ink(Color::Green)
                } else {
                    ink(Color::DarkGray)
                },
            ),
        ]
    } else {
        Seq::empty()
    };
    let behind = match m.files[i as int].direction {
        OobSyncDirection::DiskToIndex => seq![span(" →I"@, ink(Color::Cyan))],
        OobSyncDirection::IndexToDisk => seq![span(" →D"@, ink(Color::Magenta))],
    };
    (before, behind)
}

/// The line on which way a file goes.
pub open spec fn direction_line(direction: OobSyncDirection) -> LineModel {
    line_of(
        list2(
            span("Direction: "@, Style::plain()),
            match direction {
                OobSyncDirection::DiskToIndex => span("Disk → Index"@, ink(Color::Cyan).bold()),
                OobSyncDirection::IndexToDisk => span(
                    "Index → Disk"@,
                    ink(Color::Magenta).bold(),
                ),
            },
        ),
    )
}

/// A value in a colour, or a dash where there is none.
pub open spec fn value_cell(value: Option<Seq<char>>, color: Color) -> SpanModel {
    match value {
        Some(v) => span(v, ink(color)),
        None => span("—"@, ink(Color::DarkGray)),
    }
}

/// The row of a mismatch: the tag, the index, the file.
pub open spec fn mismatch_row() -> spec_fn(TagMismatchModel) -> Seq<SpanModel> {
    |t: TagMismatchModel|
        list3(
            span(t.field, ink(Color::White)),
            value_cell(t.db_value, Color::Green),
            value_cell(t.disk_value, Color::Cyan),
        )
}

/// The words on the button that accepts the files.
pub open spec fn disk_words(m: OobSyncModel) -> Seq<char> {
    " Accept Disk ("@ + decimal(m.count(OobSyncDirection::DiskToIndex)) + ") "@
}

/// The words on the button that accepts the index.
pub open spec fn db_words(m: OobSyncModel) -> Seq<char> {
    " Accept DB ("@ + decimal(m.count(OobSyncDirection::IndexToDisk)) + ") "@
}

/// The style of a button that accepts a side.
pub open spec fn accept_style(lit: bool, files: nat, color: Color) -> Style {
    if lit {
        if files > 0 {
            ink(Color::Black).bg(color)
        } else {
            ink(Color::DarkGray).bg(Color::Black)
        }
    } else if files > 0 {
        ink(color)
    } else {
        ink(Color::DarkGray)
    }
}

/// The line of the buttons.
pub open spec fn buttons_line(m: OobSyncModel) -> LineModel {
    let focused = m.focus_pane == FocusPane::Buttons;
    line_of(
        list7(
            span("  "@, Style::plain()),
            span(
                disk_words(m),
                accept_style(
                    focused && m.selected_button == OobSyncButton::AcceptDisk,
                    m.count(OobSyncDirection::DiskToIndex),
                    Color::Cyan,
                ),
            ),
            span("  "@, Style::plain()),
            span(
                db_words(m),
                accept_style(
                    focused && m.selected_button == OobSyncButton::AcceptDb,
                    m.count(OobSyncDirection::IndexToDisk),
                    Color::Magenta,
                ),
            ),
            span("  "@, Style::plain()),
            span(
                " Cancel "@,
                if focused && m.selected_button == OobSyncButton::Cancel {
                    ink(Color::Black).bg(Color::White)
                } else {
                    ink(Color::White)
                },
            ),
            span("  "@, Style::plain()),
        ),
    )
}

/// The cells that the three buttons take, with two between neighbours.
pub open spec fn buttons_width(m: OobSyncModel) -> int {
    disk_words(m).len() as int + 2 + db_words(m).len() + 2 + 8
}

/// Where the buttons begin so that they stand in the middle.
pub open spec fn buttons_start(m: OobSyncModel, area: Rect) -> int {
    area.x + (if area.width as int > buttons_width(m) {
        (area.width - buttons_width(m)) / 2
    } else {
        0
    })
}

/// Where the buttons are drawn.
pub open spec fn button_places(m: OobSyncModel, area: Rect) -> Seq<(OobSyncButton, Rect)> {
    let x = buttons_start(m, area);
    let d = disk_words(m).len();
    let b = db_words(m).len();
    list3(
        (
            OobSyncButton::AcceptDisk,
            Rect { x: x as u16, y: area.y, width: d as u16, height: 1 },
        ),
        (
            OobSyncButton::AcceptDb,
            Rect { x: (x + d + 2) as u16, y: area.y, width: b as u16, height: 1 },
        ),
        (
            OobSyncButton::Cancel,
            Rect { x: (x + d + 2 + b + 2) as u16, y: area.y, width: 8, height: 1 },
        ),
    )
}

impl OobSyncState {
    /// Writes the title.
    pub fn title(&self) -> (r: String)
        ensures
            r@ == title_text(self@),
    {
        let mut s: String = text::cat3(
            " OOB Tag Sync — ",
            text::count(self.files.len()).as_str(),
            " file",
        );
        if self.files.len() == 1 {
            s.append("");
        } else {
            s.append("s");
        }
        s.append(" (");
        s.append(text::count(self.disk_to_index_count()).as_str());
        s.append(" disk→index, ");
        s.append(text::count(self.index_to_disk_count()).as_str());
        s.append(" index→disk)");
        let filter: String = if self.filter_text.is_some() {
            text::cat5(
                " [filtered: ",
                text::count(self.get_filtered_indices().len()).as_str(),
                "/",
                text::count(self.files.len()).as_str(),
                "]",
            )
        } else {
            String::new()
        };
        s.append(filter.as_str());
        s.append(" ");
        s
    }

    /// Writes the title of the list.
    pub fn list_title(&self) -> (r: String)
        ensures
            r@ == list_title_text(self@),
    {
        if self.selection.is_active() {
            text::cat3(
                "Files (",
                text::count(self.selection.selection_count()).as_str(),
                " selected)",
            )
        } else {
            "Files".to_owned()
        }
    }

    /// Builds what stands before and behind the path of a file in the list.
    pub fn entry_marks(&self, i: usize) -> (r: (Vec<Span>, Vec<Span>))
        requires
            i < self@.files.len(),
        ensures
            (r.0.deep_view(), r.1.deep_view()) == entry_marks(self@, i),
    {
        let mut before: Vec<Span> = nothing();
        if self.selection.is_active() {
            let style: Style = if self.selection.is_selected(i) {
                ink(Color::Green)
            } else {
                ink(Color::DarkGray)
            };
            put(
                &mut before,
                Span::styled(text::cat2(self.selection.marker(i), " ").as_str(), style),
            );
        }
        let mut behind: Vec<Span> = nothing();
        match self.files[i].direction {
            OobSyncDirection::DiskToIndex => {
                put(&mut behind, Span::styled(" →I", ink(Color::Cyan)));
            },
            OobSyncDirection::IndexToDisk => {
                put(&mut behind, Span::styled(" →D", ink(Color::Magenta)));
            },
        }
        (before, behind)
    }

    /// Builds the details of the file in hand: which way it goes, and a row for
    /// each mismatch.
    pub fn mismatch_details(&self) -> (r: Option<(Line, Vec<Vec<Span>>)>)
        ensures
            r is Some <==> self@.current_file < self@.files.len(),
            r matches Some((head, rows)) ==> head.deep_view() == direction_line(
                self@.files[self@.current_file as int].direction,
            ) && rows.deep_view() == self@.files[self@.current_file as int].mismatches.map_values(
                mismatch_row(),
            ),
    {
        if self.current_file >= self.files.len() {
            return None;
        }
        let f: &OobSyncFile = &self.files[self.current_file];
        let mut head: Vec<Span> = nothing();
        put(&mut head, Span::raw("Direction: "));
        put(
            &mut head,
            match f.direction {
                OobSyncDirection::DiskToIndex => Span::styled(
                    "Disk → Index",
                    ink(Color::Cyan).bold(),
                ),
                OobSyncDirection::IndexToDisk => Span::styled(
                    "Index → Disk",
                    ink(Color::Magenta).bold(),
                ),
            },
        );
        let ghost s = f.mismatches.deep_view();
        let mut rows: Vec<Vec<Span>> = Vec::new();
        let mut i: usize = 0;
        while i < f.mismatches.len()
            invariant
                i <= f.mismatches.len(),
                s == f.mismatches.deep_view(),
                rows.len() == i,
                forall|k: int|
                    0 <= k < i ==> (#[trigger] rows[k]).deep_view() == mismatch_row()(s[k]),
            decreases f.mismatches.len() - i,
        {
            let t: &TagMismatch = &f.mismatches[i];
            let mut row: Vec<Span> = nothing();
            put(&mut row, Span::styled(t.field.as_str(), ink(Color::White)));
            put(&mut row, cell_of(&t.db_value, Color::Green));
            put(&mut row, cell_of(&t.disk_value, Color::Cyan));
            rows.push(row);
            i = i + 1;
        }
        proof {
            assert(rows.deep_view() =~= s.map_values(mismatch_row()));
        }
        Some((Line::of(head), rows))
    }

    /// Builds the line of the buttons, and notes where they are drawn in an area.
    pub fn layout_buttons(&mut self, area: Rect) -> (r: Line)
        requires
            buttons_start(old(self)@, area) + buttons_width(old(self)@) <= u16::MAX,
        ensures
            r.deep_view() == buttons_line(old(self)@),
            final(self)@ == (OobSyncModel {
                button_rects: button_places(old(self)@, area),
                ..old(self)@
            }),
    {
        let focused: bool = self.focus_pane == FocusPane::Buttons;
        let disk_count: usize = self.disk_to_index_count();
        let db_count: usize = self.index_to_disk_count();
        let disk: String = text::cat3(" Accept Disk (", text::count(disk_count).as_str(), ") ");
        let db: String = text::cat3(" Accept DB (", text::count(db_count).as_str(), ") ");
        let d: usize = disk.as_str().unicode_len();
        let b: usize = db.as_str().unicode_len();
        proof {
            reveal_strlit(" Cancel ");
            assert(d == disk_words(self@).len() && b == db_words(self@).len());
        }
        let d: u16 = d as u16;
        let b: u16 = b as u16;
        let width: u16 = d + 2 + b + 2 + 8;
        let x: u16 = area.x + (if area.width > width {
            (area.width - width) / 2
        } else {
            0
        });
        self.button_rects.clear();
        self.button_rects.set(
            OobSyncButton::AcceptDisk,
            Rect { x, y: area.y, width: d, height: 1 },
        );
        self.button_rects.set(
            OobSyncButton::AcceptDb,
            Rect { x: x + d + 2, y: area.y, width: b, height: 1 },
        );
        self.button_rects.set(
            OobSyncButton::Cancel,
            Rect { x: x + d + 2 + b + 2, y: area.y, width: 8, height: 1 },
        );
        let mut spans: Vec<Span> = nothing();
        put(&mut spans, Span::raw("  "));
        put(
            &mut spans,
            Span::styled(
                disk.as_str(),
                accept(
                    focused && self.selected_button == OobSyncButton::AcceptDisk,
                    disk_count,
                    Color::Cyan,
                ),
            ),
        );
        put(&mut spans, Span::raw("  "));
        put(
            &mut spans,
            Span::styled(
                db.as_str(),
                accept(
                    focused && self.selected_button == OobSyncButton::AcceptDb,
                    db_count,
                    Color::Magenta,
                ),
            ),
        );
        put(&mut spans, Span::raw("  "));
        put(
            &mut spans,
            Span::styled(
                " Cancel ",
                if focused && self.selected_button == OobSyncButton::Cancel {
                    ink(Color::Black).bg(Color::White)
                } else {
                    ink(Color::White)
                },
            ),
        );
        put(&mut spans, Span::raw("  "));
        Line::of(spans)
    }
}

/// A value in a colour, or a dash where there is none.
fn cell_of(value: &Option<String>, color: Color) -> (r: Span)
    ensures
        r.deep_view() == value_cell(value.deep_view(), color),
{
    match value {
        Some(v) => Span::styled(v.as_str(), ink(color)),
        None => Span::styled("—", ink(Color::DarkGray)),
    }
}

/// The style of a button that accepts a side.
fn accept(lit: bool, files: usize, color: Color) -> (r: Style)
    ensures
        r == accept_style(lit, files as nat, color),
{
    if lit {
        if files > 0 {
            ink(Color::Black).bg(color)
        } else {
            ink(Color::DarkGray).bg(Color::Black)
        }
    } else if files > 0 {
        ink(color)
    } else {
        ink(Color::DarkGray)
    }
}

// ---------------------------------------------------------------------------
// Laws
// ---------------------------------------------------------------------------

/// No input accepts a side but Enter on its button, with a file that waits for
/// it.
pub proof fn law_accepting_takes_enter(m: OobSyncModel, action: InputAction)
    ensures
        m.step(action).1 == OobSyncAction::AcceptDisk ==> action is Confirm && m.focus_pane
            == FocusPane::Buttons && m.selected_button == OobSyncButton::AcceptDisk && m.count(
            OobSyncDirection::DiskToIndex,
        ) > 0,
        m.step(action).1 == OobSyncAction::AcceptDb ==> action is Confirm && m.focus_pane
            == FocusPane::Buttons && m.selected_button == OobSyncButton::AcceptDb && m.count(
            OobSyncDirection::IndexToDisk,
        ) > 0,
{
}

/// While the filter is typed, no input leaves the screen or accepts anything.
pub proof fn law_filter_takes_all_input(m: OobSyncModel, action: InputAction)
    requires
        m.filter_active,
    ensures
        m.step(action).1 == OobSyncAction::Nothing,
        m.step(action).0.selection == m.selection,
        m.step(action).0.current_file == m.current_file,
{
}

/// A filter shows exactly the files whose path holds it.
pub proof fn law_filter_shows_what_passes(m: OobSyncModel, i: usize)
    requires
        m.wf(),
        m.filter_text is Some,
        i < m.files.len(),
    ensures
        m.shown().contains(i) <==> passes(m.files[i as int], m.filter_text->0),
{
    let p = passing(m.files, m.filter_text->0);
    crate::lists::law_places(m.files.len(), p);
    if m.shown().contains(i) {
        let k = choose|k: int| 0 <= k < m.shown().len() && m.shown()[k] == i;
        assert(p(m.shown()[k] as int));
    }
    if passes(m.files[i as int], m.filter_text->0) {
        assert(p(i as int));
    }
}

/// Selecting all under a filter leaves the files alone that it hides.
pub proof fn law_hidden_files_keep_selection(m: OobSyncModel, i: usize)
    requires
        !m.filter_active,
        !m.shown().contains(i),
    ensures
        m.step(InputAction::TextHome).0.selection.contains(i) == m.selection.contains(i),
{
    crate::widgets::law_toggle_all(m.selection, m.shown());
}

/// Whatever the input, the file in hand stays one of the files.
pub proof fn law_file_stays_in_list(m: OobSyncModel, action: InputAction)
    requires
        m.wf(),
    ensures
        m.step(action).0.current_file < m.files.len() || m.step(action).0.current_file == 0,
        m.step(action).0.files == m.files,
{
}

/// A click on a button asks for what the button says, and nowhere else for
/// anything.
pub proof fn law_click_hits_drawn_button(m: OobSyncModel, area: Rect, x: u16, y: u16)
    requires
        buttons_start(m, area) + buttons_width(m) <= u16::MAX,
        m.button_rects == button_places(m, area),
        m.clicked(x, y).1 is Some,
    ensures
        y == area.y,
        buttons_start(m, area) <= x < buttons_start(m, area) + buttons_width(m),
{
    reveal_with_fuel(button_at, 4);
}

/// Whether some file goes a way.
pub open spec fn some_go(files: Seq<OobSyncFileModel>, direction: OobSyncDirection) -> bool {
    exists|i: int| 0 <= i < files.len() && (#[trigger] files[i]).direction == direction
}

proof fn lemma_count_is_some(m: OobSyncModel, direction: OobSyncDirection)
    ensures
        m.count(direction) > 0 <==> some_go(m.files, direction),
{
    crate::lists::law_tally(m.files, going(direction));
    if some_go(m.files, direction) {
        let i = choose|i: int| 0 <= i < m.files.len() && (#[trigger] m.files[i]).direction
            == direction;
        assert(going(direction)(m.files[i]));
    }
    if m.count(direction) > 0 {
        let i = choose|i: int| 0 <= i < m.files.len() && going(direction)(#[trigger] m.files[i]);
        assert(m.files[i].direction == direction);
    }
}

/// Enter answers the button in hand: the disk is accepted by its button where some
/// file goes to the index, the index by its button where some file goes to the
/// disk, and Cancel leaves. Elsewhere Enter does nothing, and it never changes the
/// screen.
pub proof fn law_enter_answers_the_button(m: OobSyncModel)
    requires
        !m.filter_active,
    ensures
        m.step(InputAction::Confirm).1 == OobSyncAction::AcceptDisk <==> m.focus_pane
            == FocusPane::Buttons && m.selected_button == OobSyncButton::AcceptDisk && some_go(
            m.files,
            OobSyncDirection::DiskToIndex,
        ),
        m.step(InputAction::Confirm).1 == OobSyncAction::AcceptDb <==> m.focus_pane
            == FocusPane::Buttons && m.selected_button == OobSyncButton::AcceptDb && some_go(
            m.files,
            OobSyncDirection::IndexToDisk,
        ),
        m.step(InputAction::Confirm).1 == OobSyncAction::Cancel <==> m.focus_pane
            == FocusPane::Buttons && m.selected_button == OobSyncButton::Cancel,
        m.step(InputAction::Confirm).0 == m,
{
    lemma_count_is_some(m, OobSyncDirection::DiskToIndex);
    lemma_count_is_some(m, OobSyncDirection::IndexToDisk);
}

/// Without a filter being typed, Esc leaves; nothing but Enter and Esc is answered.
pub proof fn law_only_enter_and_escape_are_answered(m: OobSyncModel, action: InputAction)
    ensures
        !m.filter_active ==> m.step(InputAction::Cancel) == (m, OobSyncAction::Cancel),
        !(action is Confirm) && !(action is Cancel) ==> m.step(action).1 == OobSyncAction::Nothing,
        m.step(action).0.files == m.files,
{
}

/// The counts on the buttons are the numbers of files that go each way: together
/// they are all files, and one more file counts one more in its way alone.
pub proof fn law_counts_are_of_files(m: OobSyncModel, f: OobSyncFileModel)
    ensures
        m.count(OobSyncDirection::DiskToIndex) + m.count(OobSyncDirection::IndexToDisk)
            == m.files.len(),
        (OobSyncModel { files: m.files.push(f), ..m }).count(f.direction) == m.count(f.direction)
            + 1,
        f.direction == OobSyncDirection::DiskToIndex ==> (OobSyncModel {
            files: m.files.push(f),
            ..m
        }).count(OobSyncDirection::IndexToDisk) == m.count(OobSyncDirection::IndexToDisk),
        f.direction == OobSyncDirection::IndexToDisk ==> (OobSyncModel {
            files: m.files.push(f),
            ..m
        }).count(OobSyncDirection::DiskToIndex) == m.count(OobSyncDirection::DiskToIndex),
{
    let p = going(OobSyncDirection::DiskToIndex);
    let q = going(OobSyncDirection::IndexToDisk);
    crate::lists::law_tally(m.files, p);
    assert((|x: OobSyncFileModel| !p(x)) =~= q) by {
        assert forall|x: OobSyncFileModel| !p(x) == #[trigger] q(x) by {
            match x.direction {
                OobSyncDirection::DiskToIndex => {},
                OobSyncDirection::IndexToDisk => {},
            }
        }
    }
    assert(m.files.push(f).drop_last() =~= m.files);
}

/// The arrows go from the button for the disk over that for the index to Cancel,
/// and back, while the buttons have the focus.
pub proof fn law_arrows_go_along_the_buttons(m: OobSyncModel)
    requires
        !m.filter_active,
    ensures
        m.focus_pane == FocusPane::List ==> m.step(InputAction::NavLeft).0 == m && m.step(
            InputAction::NavRight,
        ).0 == m,
        m.focus_pane == FocusPane::Buttons ==> m.step(InputAction::NavRight).0 == (OobSyncModel {
            selected_button: if m.selected_button == OobSyncButton::AcceptDisk {
                OobSyncButton::AcceptDb
            } else {
                OobSyncButton::Cancel
            },
            ..m
        }),
        m.focus_pane == FocusPane::Buttons ==> m.step(InputAction::NavLeft).0 == (OobSyncModel {
            selected_button: if m.selected_button == OobSyncButton::Cancel {
                OobSyncButton::AcceptDb
            } else {
                OobSyncButton::AcceptDisk
            },
            ..m
        }),
        m.step(InputAction::FocusDown).0 == (OobSyncModel {
            focus_pane: if m.focus_pane == FocusPane::List {
                FocusPane::Buttons
            } else {
                FocusPane::List
            },
            ..m
        }),
        m.step(InputAction::FocusUp).0 == m.step(InputAction::FocusDown).0,
{
}

/// Up and Down go one file at a time, Space switches the file in hand over and no
/// other.
pub proof fn law_files_are_walked_and_switched(m: OobSyncModel, i: usize)
    requires
        m.wf(),
        !m.filter_active,
        m.files.len() > 0,
    ensures
        m.step(InputAction::NavUp).0 == (OobSyncModel {
            current_file: if m.current_file == 0 {
                0
            } else {
                (m.current_file - 1) as usize
            },
            ..m
        }),
        m.step(InputAction::NavDown).0 == (OobSyncModel {
            current_file: if m.current_file + 1 == m.files.len() {
                m.current_file
            } else {
                (m.current_file + 1) as usize
            },
            ..m
        }),
        m.step(InputAction::Toggle).0.selection.contains(i) <==> (if i == m.current_file {
            !m.selection.contains(i)
        } else {
            m.selection.contains(i)
        }),
        m.step(InputAction::Toggle).0.current_file == m.current_file,
{
}

/// Ctrl and A selects all files that are shown, or, where they all are selected,
/// none of them.
pub proof fn law_all_shown_are_switched(m: OobSyncModel, i: usize)
    requires
        !m.filter_active,
    ensures
        m.step(InputAction::TextHome).0.selection.contains(i) <==> (if m.shown().contains(i) {
            exists|k: int|
                0 <= k < m.shown().len() && !m.selection.contains(#[trigger] m.shown()[k])
        } else {
            m.selection.contains(i)
        }),
{
    let s = m.shown();
    assert(s.to_set().contains(i) <==> s.contains(i));
}

/// A filter shows exactly the files whose paths hold what was typed, without
/// regard to case and to white space around it; an empty one, and Esc, show all
/// files again.
pub proof fn law_filter_shows_exactly(m: OobSyncModel, i: usize)
    requires
        m.wf(),
        m.filter_active,
        i < m.files.len(),
    ensures
        !m.step(InputAction::Confirm).0.filter_active,
        !m.step(InputAction::Cancel).0.filter_active,
        m.step(InputAction::Cancel).0.shown().contains(i),
        m.step(InputAction::Cancel).0.filter_input.value.len() == 0,
        lowercase(trimmed(m.filter_input.value)).len() == 0 ==> m.step(
            InputAction::Confirm,
        ).0.shown().contains(i),
        lowercase(trimmed(m.filter_input.value)).len() > 0 ==> (m.step(
            InputAction::Confirm,
        ).0.shown().contains(i) <==> exists|k: int|
            0 <= k <= lowercase(m.files[i as int].path).len() - lowercase(
                trimmed(m.filter_input.value),
            ).len() && #[trigger] lowercase(m.files[i as int].path).subrange(
                k,
                k + lowercase(trimmed(m.filter_input.value)).len(),
            ) == lowercase(trimmed(m.filter_input.value))),
        m.step(InputAction::Confirm).0.selection == m.selection,
{
    let query = lowercase(trimmed(m.filter_input.value));
    let p = passing(m.files, query);
    let all = |k: int| true;
    crate::lists::law_places(m.files.len(), p);
    crate::lists::law_places(m.files.len(), all);
    assert(all(i as int));
    assert(p(i as int) == passes(m.files[i as int], query));
    let s = places(m.files.len(), p);
    if s.contains(i) {
        let k = choose|k: int| 0 <= k < s.len() && s[k] == i;
        assert(p(s[k] as int));
    }
}

/// A screen opens on the first of its files, all of them selected and shown, with
/// the button for the disk in hand where a file goes to the index, and else that
/// for the index.
pub proof fn law_screen_opens_with_all(files: Seq<OobSyncFileModel>, i: usize)
    requires
        files.len() <= usize::MAX,
    ensures
        OobSyncModel::opened(files).files == files,
        OobSyncModel::opened(files).current_file == 0,
        OobSyncModel::opened(files).selection.contains(i) <==> i < files.len(),
        OobSyncModel::opened(files).shown().contains(i) <==> i < files.len(),
        OobSyncModel::opened(files).focus_pane == FocusPane::List,
        OobSyncModel::opened(files).selected_button == (if some_go(
            files,
            OobSyncDirection::DiskToIndex,
        ) {
            OobSyncButton::AcceptDisk
        } else {
            OobSyncButton::AcceptDb
        }),
{
    let m = OobSyncModel::opened(files);
    lemma_count_is_some(m, OobSyncDirection::DiskToIndex);
    let all = |k: int| true;
    crate::lists::law_places(files.len(), all);
    let s = m.shown();
    if i < files.len() {
        assert(all(i as int));
    }
    if s.contains(i) {
        let k = choose|k: int| 0 <= k < s.len() && s[k] == i;
        assert(s[k] < files.len());
    }
}

/// A click on a button answers that button and takes it into hand; a click beside
/// all of them does nothing.
pub proof fn law_click_answers_the_button(m: OobSyncModel, x: u16, y: u16, b: OobSyncButton, rect: Rect)
    requires
        m.button_rects == seq![(b, rect)],
    ensures
        rect.x <= x < rect.x + rect.width && rect.y <= y < rect.y + rect.height ==> m.clicked(x, y)
            == (
            OobSyncModel { focus_pane: FocusPane::Buttons, selected_button: b, ..m },
            Some(
                if b == OobSyncButton::AcceptDisk {
                    OobSyncAction::AcceptDisk
                } else if b == OobSyncButton::AcceptDb {
                    OobSyncAction::AcceptDb
                } else {
                    OobSyncAction::Cancel
                },
            ),
        ),
        !(rect.x <= x < rect.x + rect.width && rect.y <= y < rect.y + rect.height) ==> m.clicked(
            x,
            y,
        ) == (m, None::<OobSyncAction>),
{
    reveal_with_fuel(button_at, 2);
}

/// A click is answered by the first of the buttons that lie under it.
pub proof fn law_click_finds_the_first_button(rects: Seq<(OobSyncButton, Rect)>, x: u16, y: u16)
    ensures
        button_at(rects, 0, x, y) is None <==> forall|k: int|
            0 <= k < rects.len() ==> !(#[trigger] rects[k]).1.covers(x, y),
        button_at(rects, 0, x, y) matches Some(b) ==> exists|k: int|
            0 <= k < rects.len() && (#[trigger] rects[k]).1.covers(x, y) && rects[k].0 == b && (
            forall|l: int| 0 <= l < k ==> !(#[trigger] rects[l]).1.covers(x, y)),
{
    lemma_first_button(rects, 0, x, y);
}

proof fn lemma_first_button(rects: Seq<(OobSyncButton, Rect)>, from: nat, x: u16, y: u16)
    requires
        forall|l: int| 0 <= l < from && l < rects.len() ==> !(#[trigger] rects[l]).1.covers(x, y),
    ensures
        button_at(rects, from, x, y) is None <==> forall|k: int|
            0 <= k < rects.len() ==> !(#[trigger] rects[k]).1.covers(x, y),
        button_at(rects, from, x, y) matches Some(b) ==> exists|k: int|
            0 <= k < rects.len() && (#[trigger] rects[k]).1.covers(x, y) && rects[k].0 == b && (
            forall|l: int| 0 <= l < k ==> !(#[trigger] rects[l]).1.covers(x, y)),
    decreases rects.len() - from,
{
    if from < rects.len() && !rects[from as int].1.covers(x, y) {
        lemma_first_button(rects, from + 1, x, y);
    }
}

/// What the list marks: which files are selected, and which way each goes.
pub proof fn law_files_are_marked(m: OobSyncModel, i: usize)
    requires
        i < m.files.len(),
        m.selection.contains(i),
    ensures
        m.selection.len() != 0 ==> entry_marks(m, i).0[0].text == "[x]"@ + " "@,
        m.files[i as int].direction == OobSyncDirection::DiskToIndex ==> entry_marks(m, i).1[0].text
            == " →I"@,
        m.files[i as int].direction == OobSyncDirection::IndexToDisk ==> entry_marks(m, i).1[0].text
            == " →D"@,
{
}

/// Each difference shows the field with what the index has and what is on disk.
pub proof fn law_differences_are_shown(t: TagMismatchModel)
    ensures
        mismatch_row()(t)[0].text == t.field,
        t.db_value is Some ==> mismatch_row()(t)[1].text == t.db_value->0,
        t.db_value is None ==> mismatch_row()(t)[1].text == "—"@,
        t.disk_value is Some ==> mismatch_row()(t)[2].text == t.disk_value->0,
        t.disk_value is None ==> mismatch_row()(t)[2].text == "—"@,
{
}

/// The buttons stand side by side in the order in which they are drawn, each as
/// wide as its words.
pub proof fn law_buttons_stand_side_by_side(m: OobSyncModel, area: Rect)
    requires
        buttons_start(m, area) + disk_words(m).len() + db_words(m).len() + 12 <= u16::MAX,
    ensures
        ({
            let p = button_places(m, area);
            &&& p.len() == 3
            &&& p[0].0 == OobSyncButton::AcceptDisk && p[1].0 == OobSyncButton::AcceptDb && p[2].0
                == OobSyncButton::Cancel
            &&& p[0].1.x + p[0].1.width + 2 == p[1].1.x
            &&& p[1].1.x + p[1].1.width + 2 == p[2].1.x
            &&& p[0].1.y == area.y && p[1].1.y == area.y && p[2].1.y == area.y
            &&& p[0].1.width == disk_words(m).len() && p[1].1.width == db_words(m).len()
        }),
{
}

/// The button in hand alone is lit, and only where the buttons are.
pub proof fn law_button_in_hand_is_lit(m: OobSyncModel)
    ensures
        ({
            let s = buttons_line(m).spans;
            let focused = m.focus_pane == FocusPane::Buttons;
            &&& s[1].style.bg is Some <==> focused && m.selected_button == OobSyncButton::AcceptDisk
            &&& s[3].style.bg is Some <==> focused && m.selected_button == OobSyncButton::AcceptDb
            &&& s[5].style.bg is Some <==> focused && m.selected_button == OobSyncButton::Cancel
            &&& s[1].text == disk_words(m) && s[3].text == db_words(m) && s[5].text == " Cancel "@
        }),
{
}

} // verus!
