//! Choosing the root of the archive, and making a database.

use vstd::prelude::*;

use crate::input::{KeyCode, KeyEvent};
use crate::paths;
use crate::screen::{blank, ink, line, line_of, list10, list3, list4, list5, list6, nothing, put, span, visible, window, Color, Line, LineModel, Span, Style};
use crate::text::{self, holds, trimmed};
use crate::text_input::{TextInputModel, TextInputState};

verus! {

/// A line of the tree of directories.
#[derive(Debug)]
pub struct TreeEntry {
    pub path: String,
    pub name: String,
    pub depth: usize,
    pub directory: bool,
    /// Stands for a directory to be made
    pub is_synthetic: bool,
    pub has_children: bool,
    pub is_expanded: bool,
}

/// The model of a [`TreeEntry`].
pub struct EntryModel {
    pub path: Seq<char>,
    pub name: Seq<char>,
    pub depth: usize,
    pub directory: bool,
    pub is_synthetic: bool,
    pub has_children: bool,
    pub is_expanded: bool,
}

impl DeepView for TreeEntry {
    type V = EntryModel;

    open spec fn deep_view(&self) -> EntryModel {
        EntryModel {
            path: self.path@,
            name: self.name@,
            depth: self.depth,
            directory: self.directory,
            is_synthetic: self.is_synthetic,
            has_children: self.has_children,
            is_expanded: self.is_expanded,
        }
    }
}

/// A directory that is being named.
#[derive(Debug)]
pub struct CreateDirState {
    pub parent_path: String,
    pub input: TextInputState,
}

/// The model of a [`CreateDirState`].
pub struct CreateDirModel {
    pub parent_path: Seq<char>,
    pub input: TextInputModel,
}

impl DeepView for CreateDirState {
    type V = CreateDirModel;

    open spec fn deep_view(&self) -> CreateDirModel {
        CreateDirModel { parent_path: self.parent_path@, input: self.input@ }
    }
}

/// The picker. The tree itself is walked outside.
#[derive(Debug)]
pub struct DirectoryPickerState {
    /// The directory that is being named
    pub creating_dir: Option<CreateDirState>,
    /// The message at the bottom
    pub status_message: Option<String>,
}

/// The model of a [`DirectoryPickerState`].
pub struct PickerModel {
    pub creating_dir: Option<CreateDirModel>,
    pub status_message: Option<Seq<char>>,
}

impl View for DirectoryPickerState {
    type V = PickerModel;

    open spec fn view(&self) -> PickerModel {
        PickerModel {
            creating_dir: match self.creating_dir {
                Some(c) => Some(c.deep_view()),
                None => None,
            },
            status_message: self.status_message.deep_view(),
        }
    }
}

/// What the picker asks for.
#[derive(Debug)]
pub enum PickerAction {
    /// Nothing
    Nothing,
    /// One up in the tree
    MoveUp,
    /// One down in the tree
    MoveDown,
    /// Open the directory in hand
    Expand,
    /// Close the directory in hand, or go to the one that holds it
    CollapseOrParent,
    /// Open the directory in hand and go one down
    ExpandAndMoveDown,
    /// Make a directory
    CreateDir(String),
    /// The root of the archive
    Select(String),
    /// Leave
    Cancelled,
}

/// The model of a [`PickerAction`].
pub enum PickerAnswer {
    Nothing,
    MoveUp,
    MoveDown,
    Expand,
    CollapseOrParent,
    ExpandAndMoveDown,
    CreateDir(Seq<char>),
    Select(Seq<char>),
    Cancelled,
}

impl DeepView for PickerAction {
    type V = PickerAnswer;

    open spec fn deep_view(&self) -> PickerAnswer {
        match self {
            PickerAction::Nothing => PickerAnswer::Nothing,
            PickerAction::MoveUp => PickerAnswer::MoveUp,
            PickerAction::MoveDown => PickerAnswer::MoveDown,
            PickerAction::Expand => PickerAnswer::Expand,
            PickerAction::CollapseOrParent => PickerAnswer::CollapseOrParent,
            PickerAction::ExpandAndMoveDown => PickerAnswer::ExpandAndMoveDown,
            PickerAction::CreateDir(p) => PickerAnswer::CreateDir(p@),
            PickerAction::Select(p) => PickerAnswer::Select(p@),
            PickerAction::Cancelled => PickerAnswer::Cancelled,
        }
    }
}

/// What a reference to an entry holds.
pub open spec fn entry_model(e: Option<&TreeEntry>) -> Option<EntryModel> {
    match e {
        Some(x) => Some(x.deep_view()),
        None => None,
    }
}

/// A directory that is to be named, with nothing typed yet.
pub open spec fn naming(parent_path: Seq<char>) -> Option<CreateDirModel> {
    Some(CreateDirModel { parent_path, input: TextInputModel::empty() })
}

impl PickerModel {
    /// The cursor of the name stands in it.
    pub open spec fn wf(self) -> bool {
        self.creating_dir matches Some(c) ==> c.input.wf()
    }

    /// The answer while a directory is being named. A name must not be empty
    /// nor hold a slash: then the naming ends without a directory.
    pub open spec fn naming_step(self, c: CreateDirModel, key: KeyEvent) -> (
        PickerModel,
        PickerAnswer,
    ) {
        match key.code {
            KeyCode::Enter => {
                let name = trimmed(c.input.value);
                if name.len() > 0 && !holds(name, "/"@) {
                    (self, PickerAnswer::CreateDir(paths::under(c.parent_path, name)))
                } else {
                    (PickerModel { creating_dir: None, ..self }, PickerAnswer::Nothing)
                }
            },
            KeyCode::Esc => (PickerModel { creating_dir: None, ..self }, PickerAnswer::Nothing),
            _ => (
                PickerModel {
                    creating_dir: Some(CreateDirModel { input: c.input.key_step(key), ..c }),
                    ..self
                },
                PickerAnswer::Nothing,
            ),
        }
    }

    /// The answer to a key in the tree, with the entry in hand.
    pub open spec fn tree_step(self, key: KeyEvent, entry: Option<EntryModel>) -> (
        PickerModel,
        PickerAnswer,
    ) {
        let quiet = PickerModel { status_message: None, ..self };
        match key.code {
            KeyCode::Up => (quiet, PickerAnswer::MoveUp),
            KeyCode::Down => (quiet, PickerAnswer::MoveDown),
            KeyCode::Right => (self, PickerAnswer::Expand),
            KeyCode::Left => (self, PickerAnswer::CollapseOrParent),
            KeyCode::Enter => match entry {
                Some(e) => if e.is_synthetic {
                    (
                        PickerModel { creating_dir: naming(e.path), ..self },
                        PickerAnswer::Nothing,
                    )
                } else if e.directory {
                    (self, PickerAnswer::Select(e.path))
                } else {
                    (self, PickerAnswer::Nothing)
                },
                None => (self, PickerAnswer::Nothing),
            },
            KeyCode::Char(c) => if c == 'n' || c == 'N' {
                match entry {
                    Some(e) => if e.directory && !e.is_synthetic {
                        (
                            PickerModel { creating_dir: naming(e.path), ..self },
                            if e.is_expanded {
                                PickerAnswer::MoveDown
                            } else {
                                PickerAnswer::ExpandAndMoveDown
                            },
                        )
                    } else {
                        (self, PickerAnswer::Nothing)
                    },
                    None => (self, PickerAnswer::Nothing),
                }
            } else {
                (self, PickerAnswer::Nothing)
            },
            KeyCode::Esc => (self, PickerAnswer::Cancelled),
            _ => (self, PickerAnswer::Nothing),
        }
    }

    /// The answer to a key, with the entry in hand.
    pub open spec fn key_step(self, key: KeyEvent, entry: Option<EntryModel>) -> (
        PickerModel,
        PickerAnswer,
    ) {
        match self.creating_dir {
            Some(c) => self.naming_step(c, key),
            None => self.tree_step(key, entry),
        }
    }
}

impl DirectoryPickerState {
    /// The picker as it opens.
    pub fn new() -> (r: Self)
        ensures
            r@ == (PickerModel { creating_dir: None, status_message: None }),
            r@.wf(),
    {
        DirectoryPickerState { creating_dir: None, status_message: None }
    }

    fn name_dir(&mut self, parent_path: String)
        ensures
            final(self)@ == (PickerModel { creating_dir: naming(parent_path@), ..old(self)@ }),
            final(self)@.wf(),
    {
        self.creating_dir = Some(CreateDirState { parent_path, input: TextInputState::new() });
    }

    fn handle_naming_key(&mut self, key: KeyEvent) -> (r: PickerAction)
        requires
            old(self)@.wf(),
            old(self)@.creating_dir is Some,
        ensures
            (final(self)@, r.deep_view()) == old(self)@.naming_step(
                old(self)@.creating_dir->0,
                key,
            ),
            final(self)@.wf(),
    {
        match key.code {
            KeyCode::Enter => {
                let mut made: Option<String> = None;
                if let Some(c) = &self.creating_dir {
                    let name: &str = text::trim(c.input.value());
                    if name.unicode_len() > 0 && !text::contains(name, "/") {
                        made = Some(paths::resolve(c.parent_path.as_str(), name));
                    }
                }
                match made {
                    Some(path) => PickerAction::CreateDir(path),
                    None => {
                        self.creating_dir = None;
                        PickerAction::Nothing
                    },
                }
            },
            KeyCode::Esc => {
                self.creating_dir = None;
                PickerAction::Nothing
            },
            _ => {
                if let Some(c) = self.creating_dir.take() {
                    let mut c: CreateDirState = c;
                    c.input.handle_key(key);
                    self.creating_dir = Some(c);
                }
                PickerAction::Nothing
            },
        }
    }

    fn handle_tree_key(&mut self, key: KeyEvent, entry: Option<&TreeEntry>) -> (r: PickerAction)
        requires
            old(self)@.wf(),
        ensures
            (final(self)@, r.deep_view()) == old(self)@.tree_step(key, entry_model(entry)),
            final(self)@.wf(),
    {
        match key.code {
            KeyCode::Up => {
                self.status_message = None;
                PickerAction::MoveUp
            },
            KeyCode::Down => {
                self.status_message = None;
                PickerAction::MoveDown
            },
            KeyCode::Right => PickerAction::Expand,
            KeyCode::Left => PickerAction::CollapseOrParent,
            KeyCode::Enter => {
                if let Some(e) = entry {
                    if e.is_synthetic {
                        self.name_dir(e.path.clone());
                    } else if e.directory {
                        return PickerAction::Select(e.path.clone());
                    }
                }
                PickerAction::Nothing
            },
            KeyCode::Char('n') | KeyCode::Char('N') => {
                if let Some(e) = entry {
                    if e.directory && !e.is_synthetic {
                        self.name_dir(e.path.clone());
                        return if e.is_expanded {
                            PickerAction::MoveDown
                        } else {
                            PickerAction::ExpandAndMoveDown
                        };
                    }
                }
                PickerAction::Nothing
            },
            KeyCode::Esc => PickerAction::Cancelled,
            _ => PickerAction::Nothing,
        }
    }

    /// Answers a key, with the entry in hand.
    pub fn handle_key(&mut self, key: KeyEvent, entry: Option<&TreeEntry>) -> (r: PickerAction)
        requires
            old(self)@.wf(),
        ensures
            (final(self)@, r.deep_view()) == old(self)@.key_step(key, entry_model(entry)),
            final(self)@.wf(),
    {
        if self.creating_dir.is_some() {
            self.handle_naming_key(key)
        } else {
            self.handle_tree_key(key, entry)
        }
    }

    /// Notes that a directory was made. The tree is to be read again, and its
    /// place taken up.
    pub fn dir_created(&mut self, path: &str)
        ensures
            final(self)@ == (PickerModel {
                creating_dir: None,
                status_message: Some("Created: "@ + path@),
            }),
            final(self)@.wf(),
    {
        self.status_message = Some(text::cat2("Created: ", path));
        self.creating_dir = None;
    }

    /// Notes that a directory could not be made.
    pub fn dir_failed(&mut self, why: &str)
        ensures
            final(self)@ == (PickerModel {
                creating_dir: None,
                status_message: Some("Error: "@ + why@),
            }),
            final(self)@.wf(),
    {
        self.status_message = Some(text::cat2("Error: ", why));
        self.creating_dir = None;
    }
}

// ---------------------------------------------------------------------------
// What is shown
// ---------------------------------------------------------------------------

/// The blanks before an entry of a depth.
pub open spec fn indent(depth: nat) -> Seq<char>
    decreases depth,
{
    if depth == 0 {
        Seq::empty()
    } else {
        indent((depth - 1) as nat) + "  "@
    }
}

fn make_indent(depth: usize) -> (r: String)
    ensures
        r@ == indent(depth as nat),
{
    let mut s: String = String::new();
    proof {
        assert(s@ =~= Seq::<char>::empty());
    }
    let mut i: usize = 0;
    while i < depth
        invariant
            i <= depth,
            s@ == indent(i as nat),
        decreases depth - i,
    {
        s = text::cat2(s.as_str(), "  ");
        i = i + 1;
    }
    s
}

/// The line of an entry.
pub open spec fn entry_line(e: EntryModel, in_hand: bool, cursor: Style) -> LineModel {
    line_of(
        list3(
            span(indent(e.depth as nat), Style::plain()),
            span(
                if e.directory && !e.is_synthetic && e.has_children {
                    if e.is_expanded {
                        "\u{25bc} "@
                    } else {
                        "\u{25b6} "@
                    }
                } else {
                    "  "@
                },
                ink(Color::Yellow),
            ),
            span(
                e.name,
                if in_hand {
                    cursor
                } else if e.is_synthetic {
                    ink(Color::Green)
                } else {
                    ink(Color::Blue)
                },
            ),
        ),
    )
}

/// The line of an entry. The one in hand has the style of the cursor.
pub fn render_picker_entry(e: &TreeEntry, in_hand: bool, cursor: Style) -> (r: Line)
    ensures
        r.deep_view() == entry_line(e.deep_view(), in_hand, cursor),
{
    let mut spans: Vec<Span> = nothing();
    put(&mut spans, Span::raw(make_indent(e.depth).as_str()));
    put(
        &mut spans,
        Span::styled(
            if e.directory && !e.is_synthetic && e.has_children {
                if e.is_expanded {
                    "\u{25bc} "
                } else {
                    "\u{25b6} "
                }
            } else {
                "  "
            },
            ink(Color::Yellow),
        ),
    );
    put(
        &mut spans,
        Span::styled(
            e.name.as_str(),
            if in_hand {
                cursor
            } else if e.is_synthetic {
                ink(Color::Green)
            } else {
                ink(Color::Blue)
            },
        ),
    );
    Line::of(spans)
}

/// The line of a name that is being typed.
pub open spec fn naming_line(t: TextInputModel, depth: nat) -> LineModel {
    line_of(
        list5(
            span(indent(depth) + "  "@, Style::plain()),
            span("Name: "@, ink(Color::DarkGray)),
            span(t.value.take(t.cursor as int), ink(Color::White)),
            span(
                if t.cursor < t.value.len() {
                    seq![t.value[t.cursor as int]]
                } else {
                    seq![' ']
                },
                ink(Color::Black).bg(Color::Cyan),
            ),
            span(
                if t.cursor < t.value.len() {
                    t.value.skip(t.cursor as int + 1)
                } else {
                    Seq::empty()
                },
                ink(Color::White),
            ),
        ),
    )
}

fn render_naming_line(t: &TextInputState, depth: usize) -> (r: Line)
    requires
        t@.wf(),
    ensures
        r.deep_view() == naming_line(t@, depth as nat),
{
    let (before, under, after) = t.cursor_splits();
    let mut spans: Vec<Span> = nothing();
    put(&mut spans, Span::raw(text::cat2(make_indent(depth).as_str(), "  ").as_str()));
    put(&mut spans, Span::styled("Name: ", ink(Color::DarkGray)));
    put(&mut spans, Span::styled(before.as_str(), ink(Color::White)));
    put(&mut spans, Span::styled(under.as_str(), ink(Color::Black).bg(Color::Cyan)));
    put(&mut spans, Span::styled(after.as_str(), ink(Color::White)));
    Line::of(spans)
}

impl PickerModel {
    /// The lines of the tree. Where a directory is being named, its name stands
    /// in place of the entry in hand.
    pub open spec fn tree_lines(self, entries: Seq<EntryModel>, at: usize, cursor: Style) -> Seq<
        LineModel,
    > {
        Seq::new(
            entries.len(),
            |i: int|
                match self.creating_dir {
                    Some(c) => if i == at {
                        naming_line(c.input, entries[i].depth as nat)
                    } else {
                        entry_line(entries[i], false, cursor)
                    },
                    None => entry_line(entries[i], i == at, cursor),
                },
        )
    }

    /// The keys, or the message.
    pub open spec fn controls(self) -> LineModel {
        if self.creating_dir is Some {
            line_of(
                list4(
                    span(" Enter"@, ink(Color::Green)),
                    span(" create  "@, ink(Color::DarkGray)),
                    span("Esc"@, ink(Color::DarkGray)),
                    span(" cancel"@, ink(Color::DarkGray)),
                ),
            )
        } else {
            match self.status_message {
                Some(m) => line_of(seq![span(" "@ + m, ink(Color::Green))]),
                None => line_of(
                    list10(
                        span(" \u{25b2}/\u{25bc}"@, ink(Color::Yellow)),
                        span(" navigate  "@, ink(Color::DarkGray)),
                        span("\u{2192}/\u{2190}"@, ink(Color::Yellow)),
                        span(" expand  "@, ink(Color::DarkGray)),
                        span("n"@, ink(Color::Yellow)),
                        span(" new dir  "@, ink(Color::DarkGray)),
                        span("Enter"@, ink(Color::Green)),
                        span(" select  "@, ink(Color::DarkGray)),
                        span("Esc"@, ink(Color::DarkGray)),
                        span(" exit"@, ink(Color::DarkGray)),
                    ),
                ),
            }
        }
    }
}

impl DirectoryPickerState {
    /// The tree, as many lines as fit from the first that is shown.
    pub fn render_tree(
        &self,
        entries: &Vec<TreeEntry>,
        at: usize,
        scroll: usize,
        height: usize,
        cursor: Style,
    ) -> (r: Vec<Line>)
        requires
            self@.wf(),
        ensures
            r.deep_view() == window(
                self@.tree_lines(entries.deep_view(), at, cursor),
                scroll as nat,
                height as nat,
            ),
    {
        let ghost want = self@.tree_lines(entries.deep_view(), at, cursor);
        let mut lines: Vec<Line> = nothing();
        let mut i: usize = 0;
        while i < entries.len()
            invariant
                i <= entries.len(),
                self@.wf(),
                want == self@.tree_lines(entries.deep_view(), at, cursor),
                lines.len() == i,
                forall|k: int| 0 <= k < i ==> (#[trigger] lines[k]).deep_view() == want[k],
            decreases entries.len() - i,
        {
            let l: Line = match &self.creating_dir {
                Some(c) => if i == at {
                    render_naming_line(&c.input, entries[i].depth)
                } else {
                    render_picker_entry(&entries[i], false, cursor)
                },
                None => render_picker_entry(&entries[i], i == at, cursor),
            };
            proof {
                assert(l.deep_view() == want[i as int]);
            }
            lines.push(l);
            i = i + 1;
        }
        proof {
            assert(lines.deep_view() =~= want);
        }
        visible(lines, scroll, height)
    }

    /// The keys, or the message.
    pub fn render_controls(&self) -> (r: Line)
        ensures
            r.deep_view() == self@.controls(),
    {
        let mut spans: Vec<Span> = nothing();
        if self.creating_dir.is_some() {
            put(&mut spans, Span::styled(" Enter", ink(Color::Green)));
            put(&mut spans, Span::styled(" create  ", ink(Color::DarkGray)));
            put(&mut spans, Span::styled("Esc", ink(Color::DarkGray)));
            put(&mut spans, Span::styled(" cancel", ink(Color::DarkGray)));
            return Line::of(spans);
        }
        match &self.status_message {
            Some(m) => {
                put(
                    &mut spans,
                    Span::styled(text::cat2(" ", m.as_str()).as_str(), ink(Color::Green)),
                );
            },
            None => {
                put(&mut spans, Span::styled(" \u{25b2}/\u{25bc}", ink(Color::Yellow)));
                put(&mut spans, Span::styled(" navigate  ", ink(Color::DarkGray)));
                put(&mut spans, Span::styled("\u{2192}/\u{2190}", ink(Color::Yellow)));
                put(&mut spans, Span::styled(" expand  ", ink(Color::DarkGray)));
                put(&mut spans, Span::styled("n", ink(Color::Yellow)));
                put(&mut spans, Span::styled(" new dir  ", ink(Color::DarkGray)));
                put(&mut spans, Span::styled("Enter", ink(Color::Green)));
                put(&mut spans, Span::styled(" select  ", ink(Color::DarkGray)));
                put(&mut spans, Span::styled("Esc", ink(Color::DarkGray)));
                put(&mut spans, Span::styled(" exit", ink(Color::DarkGray)));
            },
        }
        Line::of(spans)
    }
}

/// What the picker is for.
pub open spec fn description() -> Seq<LineModel> {
    list6(
        blank(),
        line_of(
            seq![
                span(
                    " Select a read/write directory for your music archive root."@,
                    ink(Color::White),
                ),
            ],
        ),
        blank(),
        line_of(
            seq![
                span(
                    " This directory should be empty. MM will create subdirectories:"@,
                    ink(Color::DarkGray),
                ),
            ],
        ),
        line_of(
            list4(
                span("   corpus/"@, ink(Color::Yellow)),
                span("  libraries/"@, ink(Color::Yellow)),
                span("  stash/"@, ink(Color::Yellow)),
                span("  inbox/"@, ink(Color::Yellow)),
            ),
        ),
        blank(),
    )
}

/// What the picker is for.
pub fn render_description() -> (r: Vec<Line>)
    ensures
        r.deep_view() == description(),
{
    let mut spans: Vec<Span> = nothing();
    put(&mut spans, Span::styled("   corpus/", ink(Color::Yellow)));
    put(&mut spans, Span::styled("  libraries/", ink(Color::Yellow)));
    put(&mut spans, Span::styled("  stash/", ink(Color::Yellow)));
    put(&mut spans, Span::styled("  inbox/", ink(Color::Yellow)));
    let mut lines: Vec<Line> = nothing();
    put(&mut lines, Line::blank());
    put(
        &mut lines,
        Line::one(
            " Select a read/write directory for your music archive root.",
            ink(Color::White),
        ),
    );
    put(&mut lines, Line::blank());
    put(
        &mut lines,
        Line::one(
            " This directory should be empty. MM will create subdirectories:",
            ink(Color::DarkGray),
        ),
    );
    put(&mut lines, Line::of(spans));
    put(&mut lines, Line::blank());
    lines
}

/// What is asked where there is no database.
pub open spec fn db_setup_lines(db_path: Seq<char>) -> Seq<LineModel> {
    list10(
        blank(),
        line("Welcome back to MM!"@, ink(Color::Cyan).bold()),
        blank(),
        line("No database found. MM will create a new one at:"@, ink(Color::White)),
        blank(),
        line("  "@ + db_path, ink(Color::Yellow)),
        blank(),
        line("After setup, your corpus will be scanned."@, ink(Color::DarkGray)),
        blank(),
        line("[Enter] Create Database    [Esc] Exit"@, ink(Color::Cyan)),
    )
}

/// What is asked where there is no database.
pub fn render_db_setup(db_path: &str) -> (r: Vec<Line>)
    ensures
        r.deep_view() == db_setup_lines(db_path@),
{
    let mut lines: Vec<Line> = nothing();
    put(&mut lines, Line::blank());
    put(&mut lines, Line::styled("Welcome back to MM!", ink(Color::Cyan).bold()));
    put(&mut lines, Line::blank());
    put(
        &mut lines,
        Line::styled("No database found. MM will create a new one at:", ink(Color::White)),
    );
    put(&mut lines, Line::blank());
    put(&mut lines, Line::styled(text::cat2("  ", db_path).as_str(), ink(Color::Yellow)));
    put(&mut lines, Line::blank());
    put(
        &mut lines,
        Line::styled("After setup, your corpus will be scanned.", ink(Color::DarkGray)),
    );
    put(&mut lines, Line::blank());
    put(&mut lines, Line::styled("[Enter] Create Database    [Esc] Exit", ink(Color::Cyan)));
    lines
}

/// What the dialog on a missing database asks for.
#[derive(Debug, Clone, Copy, PartialEq, Eq, Structural)]
pub enum DbSetupAction {
    /// Nothing
    Nothing,
    /// Make a database
    Create,
    /// Leave
    Cancelled,
}

/// Answers a key on the dialog on a missing database.
pub fn db_setup_key(key: KeyEvent) -> (r: DbSetupAction)
    ensures
        r == (match key.code {
            KeyCode::Enter => DbSetupAction::Create,
            KeyCode::Esc => DbSetupAction::Cancelled,
            _ => DbSetupAction::Nothing,
        }),
{
    match key.code {
        KeyCode::Enter => DbSetupAction::Create,
        KeyCode::Esc => DbSetupAction::Cancelled,
        _ => DbSetupAction::Nothing,
    }
}

/// Only a directory is taken for the root, and only while none is being named.
pub proof fn law_root_is_a_directory(m: PickerModel, key: KeyEvent, entry: Option<EntryModel>)
    ensures
        m.key_step(key, entry).1 matches PickerAnswer::Select(p) ==> m.creating_dir is None && (
        entry matches Some(e) && e.directory && !e.is_synthetic && e.path == p),
{
}

/// While a directory is being named, Esc leaves the naming, not the picker.
pub proof fn law_esc_leaves_the_naming_first(
    m: PickerModel,
    key: KeyEvent,
    entry: Option<EntryModel>,
)
    requires
        key.code == KeyCode::Esc,
    ensures
        m.creating_dir is Some ==> m.key_step(key, entry).1 == PickerAnswer::Nothing
            && m.key_step(key, entry).0.creating_dir is None,
        m.creating_dir is None ==> m.key_step(key, entry).1 == PickerAnswer::Cancelled,
{
}

/// What each key asks of the tree while no directory is named.
pub proof fn law_tree_keys(m: PickerModel, key: KeyEvent, entry: Option<EntryModel>)
    requires
        m.creating_dir is None,
    ensures
        ({
            let n = m.key_step(key, entry);
            let letter = key.code == KeyCode::Char('n') || key.code == KeyCode::Char('N');
            let on_disk = entry is Some && entry->0.directory && !entry->0.is_synthetic;
            &&& n.1 is MoveUp <==> key.code == KeyCode::Up
            &&& n.1 is MoveDown <==> key.code == KeyCode::Down || (letter && on_disk
                && entry->0.is_expanded)
            &&& n.1 is ExpandAndMoveDown <==> letter && on_disk && !entry->0.is_expanded
            &&& n.1 is Expand <==> key.code == KeyCode::Right
            &&& n.1 is CollapseOrParent <==> key.code == KeyCode::Left
            &&& n.1 is Select <==> key.code == KeyCode::Enter && on_disk
            &&& n.1 is Select ==> n.1->Select_0 == entry->0.path
            &&& n.1 is Cancelled <==> key.code == KeyCode::Esc
            &&& n.0.creating_dir is Some <==> (letter && on_disk) || (key.code == KeyCode::Enter
                && entry is Some && entry->0.is_synthetic)
            &&& n.0.creating_dir is Some ==> n.0.creating_dir->0.parent_path == entry->0.path
                && n.0.creating_dir->0.input.value.len() == 0
            &&& key.code == KeyCode::Up || key.code == KeyCode::Down ==> n.0.status_message is None
        }),
{
}

/// While a directory is named, Enter asks for it under the chosen one where the
/// name can be one; other keys edit the name.
pub proof fn law_named_directory_is_made(m: PickerModel, key: KeyEvent, entry: Option<EntryModel>)
    requires
        m.creating_dir is Some,
    ensures
        ({
            let n = m.key_step(key, entry);
            let c = m.creating_dir->0;
            let name = trimmed(c.input.value);
            &&& n.1 is CreateDir <==> key.code == KeyCode::Enter && name.len() > 0 && !name.contains(
                '/',
            )
            &&& n.1 is CreateDir ==> n.1->CreateDir_0 == paths::under(c.parent_path, name)
            &&& n.1 is Nothing || n.1 is CreateDir
            &&& n.0.creating_dir is None <==> key.code == KeyCode::Esc || (key.code
                == KeyCode::Enter && !(n.1 is CreateDir))
            &&& key.code != KeyCode::Enter && key.code != KeyCode::Esc ==> n.0.creating_dir
                == Some(CreateDirModel { input: c.input.key_step(key), ..c })
        }),
{
    let name = trimmed(m.creating_dir->0.input.value);
    reveal_strlit("/");
    assert("/"@ =~= seq!['/']);
    if name.contains('/') {
        let i = choose|i: int| 0 <= i < name.len() && name[i] == '/';
        assert(name.subrange(i, i + 1) =~= "/"@);
        assert(name.subrange(i, i + "/"@.len()) == "/"@);
        assert(holds(name, "/"@));
    }
    if holds(name, "/"@) {
        let i = choose|i: int|
            0 <= i <= name.len() - "/"@.len() && #[trigger] name.subrange(i, i + "/"@.len())
                == "/"@;
        assert(name.subrange(i, i + 1)[0] == '/');
        assert(name[i] == '/');
    }
}

/// An entry is set in by two blanks for each directory that it lies in.
pub proof fn law_entries_are_set_in(depth: nat)
    ensures
        indent(depth).len() == 2 * depth,
        forall|i: int| 0 <= i < indent(depth).len() ==> indent(depth)[i] == ' ',
    decreases depth,
{
    reveal_strlit("  ");
    if depth > 0 {
        law_entries_are_set_in((depth - 1) as nat);
    }
}

/// The tree shows each entry in turn, the one in hand lit; while a directory is
/// named, its name stands in that place.
pub proof fn law_tree_shows_entries(
    m: PickerModel,
    entries: Seq<EntryModel>,
    at: usize,
    cursor: Style,
    i: int,
)
    requires
        0 <= i < entries.len(),
    ensures
        ({
            let l = m.tree_lines(entries, at, cursor);
            &&& l.len() == entries.len()
            &&& m.creating_dir is None || i != at ==> l[i].spans[0].text == indent(
                entries[i].depth as nat,
            ) && l[i].spans[2].text == entries[i].name
            &&& m.creating_dir is None && i == at ==> l[i].spans[2].style == cursor
            &&& m.creating_dir is Some && i == at && m.creating_dir->0.input.cursor
                == m.creating_dir->0.input.value.len() ==> l[i].spans[2].text
                == m.creating_dir->0.input.value
        }),
{
    if m.creating_dir is Some {
        let t = m.creating_dir->0.input;
        if t.cursor == t.value.len() {
            assert(t.value.take(t.cursor as int) =~= t.value);
        }
    }
}

} // verus!
