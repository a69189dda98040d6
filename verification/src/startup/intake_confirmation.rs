//! Asking whether new files are to be indexed.

use vstd::prelude::*;

use crate::corpus::Zone;
use crate::input::InputAction;
use crate::screen::{blank, ink, line_of, list2, list3, list6, nothing, put, put_all, span, visible, window, Color, Line, LineModel, Span, Style};
use crate::text::{self, decimal};

verus! {

/// What the modal asks for.
#[derive(Debug, Clone, Copy, PartialEq, Eq, Structural)]
pub enum IntakeConfirmationAction {
    /// Nothing
    Nothing,
    /// Index the files
    Confirmed,
    /// Go on without
    Skipped,
}

/// The new files of a directory.
#[derive(Debug)]
pub struct DirectoryGroup {
    pub zone: Zone,
    pub display_path: String,
    pub filenames: Vec<String>,
}

/// The model of a [`DirectoryGroup`].
pub struct GroupModel {
    pub zone: Zone,
    pub display_path: Seq<char>,
    pub filenames: Seq<Seq<char>>,
}

impl DeepView for DirectoryGroup {
    type V = GroupModel;

    open spec fn deep_view(&self) -> GroupModel {
        GroupModel {
            zone: self.zone,
            display_path: self.display_path@,
            filenames: self.filenames.deep_view(),
        }
    }
}

/// The modal.
#[derive(Debug)]
pub struct IntakeConfirmationState {
    /// The files by directory
    pub grouped_files: Vec<DirectoryGroup>,
    /// Whether the zones are told apart
    pub multi_zone: bool,
    /// The first line that is shown
    pub scroll_offset: usize,
    /// How many files there are
    pub file_count: usize,
}

/// The model of an [`IntakeConfirmationState`].
pub struct IntakeModel {
    pub grouped_files: Seq<GroupModel>,
    pub multi_zone: bool,
    pub scroll_offset: usize,
    pub file_count: usize,
}

impl View for IntakeConfirmationState {
    type V = IntakeModel;

    open spec fn view(&self) -> IntakeModel {
        IntakeModel {
            grouped_files: self.grouped_files.deep_view(),
            multi_zone: self.multi_zone,
            scroll_offset: self.scroll_offset,
            file_count: self.file_count,
        }
    }
}

/// The heading of a zone.
pub open spec fn zone_label(zone: Zone) -> Seq<char> {
    match zone {
        Zone::Corpus => "--- Corpus ---"@,
        Zone::Inbox => "--- Inbox ---"@,
        _ => "---"@,
    }
}

/// The line of a file.
pub open spec fn file_line() -> spec_fn(Seq<char>) -> LineModel {
    |name: Seq<char>|
        line_of(list2(span("  "@, Style::plain()), span(name, ink(Color::White))))
}

/// The heading of a zone, with a blank line before it but for the first.
pub open spec fn zone_lines(before: Option<Zone>, zone: Zone) -> Seq<LineModel> {
    let heading = line_of(seq![span(zone_label(zone), ink(Color::Yellow).bold())]);
    if before == Some(zone) {
        Seq::empty()
    } else if before is Some {
        list2(blank(), heading)
    } else {
        seq![heading]
    }
}

/// The lines of a directory: its path, then its files.
pub open spec fn directory_lines(g: GroupModel) -> Seq<LineModel> {
    seq![line_of(seq![span(g.display_path + "/"@, ink(Color::Cyan).bold())])]
        + g.filenames.map_values(file_line())
}

/// The lines of directories. Where the zones are told apart, a heading stands
/// wherever the zone changes.
pub open spec fn list_of(groups: Seq<GroupModel>, multi_zone: bool) -> Seq<LineModel>
    decreases groups.len(),
{
    if groups.len() == 0 {
        Seq::empty()
    } else {
        let g = groups.last();
        let before = if groups.len() > 1 {
            Some(groups[groups.len() - 2].zone)
        } else {
            None
        };
        list_of(groups.drop_last(), multi_zone) + (if multi_zone {
            zone_lines(before, g.zone)
        } else {
            Seq::empty()
        }) + directory_lines(g)
    }
}

/// The last first line of a window over some lines.
pub open spec fn last_scroll(total: nat, height: nat) -> nat {
    if total > height {
        (total - height) as nat
    } else {
        0
    }
}

impl IntakeModel {
    /// All lines of the list.
    pub open spec fn lines(self) -> Seq<LineModel> {
        list_of(self.grouped_files, self.multi_zone)
    }

    /// The answer to an input, with a list of a height.
    pub open spec fn step(self, action: InputAction, height: nat) -> (
        IntakeModel,
        IntakeConfirmationAction,
    ) {
        match action {
            InputAction::Confirm => (self, IntakeConfirmationAction::Confirmed),
            InputAction::Cancel => (self, IntakeConfirmationAction::Skipped),
            InputAction::NavUp => (
                if self.scroll_offset > 0 {
                    IntakeModel { scroll_offset: (self.scroll_offset - 1) as usize, ..self }
                } else {
                    self
                },
                IntakeConfirmationAction::Nothing,
            ),
            InputAction::NavDown => (
                if self.scroll_offset < last_scroll(self.lines().len(), height) {
                    IntakeModel { scroll_offset: (self.scroll_offset + 1) as usize, ..self }
                } else {
                    self
                },
                IntakeConfirmationAction::Nothing,
            ),
            _ => (self, IntakeConfirmationAction::Nothing),
        }
    }

    /// Where the list is scrolled to, at most to its end.
    pub open spec fn offset(self, height: nat) -> nat {
        let last = last_scroll(self.lines().len(), height);
        if self.scroll_offset < last {
            self.scroll_offset as nat
        } else {
            last
        }
    }

    /// The part of the list that is shown.
    pub open spec fn shown(self, height: nat) -> Seq<LineModel> {
        window(self.lines(), self.offset(height), height)
    }

    /// Where in the list that is, if not all of it is shown.
    pub open spec fn note(self, height: nat) -> Option<Seq<char>> {
        let total = self.lines().len();
        if total > height {
            Some(
                " ["@ + decimal(self.offset(height) + 1) + "/"@ + decimal(
                    last_scroll(total, height) + 1,
                ) + "] "@,
            )
        } else {
            None
        }
    }

    /// How many files of what size there are.
    pub open spec fn header(self, size: Seq<char>) -> Seq<LineModel> {
        list2(
            line_of(
                list3(
                    span(decimal(self.file_count as nat) + " files"@, ink(Color::Yellow).bold()),
                    span(" to index  "@, Style::plain()),
                    span("("@ + size + ")"@, ink(Color::DarkGray)),
                ),
            ),
            blank(),
        )
    }
}

/// The keys.
pub open spec fn footer() -> Seq<LineModel> {
    list2(
        blank(),
        line_of(
            list6(
                span("[Enter]"@, ink(Color::Cyan)),
                span(" Index  "@, Style::plain()),
                span("[Esc]"@, ink(Color::Cyan)),
                span(" Skip  "@, Style::plain()),
                span("[↑↓]"@, ink(Color::DarkGray)),
                span(" Scroll"@, Style::plain()),
            ),
        ),
    )
}

fn put_zone(lines: &mut Vec<Line>, before: Option<Zone>, zone: Zone)
    ensures
        final(lines).deep_view() == old(lines).deep_view() + zone_lines(before, zone),
{
    let ghost start = lines.deep_view();
    let known: bool = match before {
        Some(z) => z == zone,
        None => false,
    };
    if !known {
        if before.is_some() {
            put(lines, Line::blank());
        }
        let label: &str = match zone {
            Zone::Corpus => "--- Corpus ---",
            Zone::Inbox => "--- Inbox ---",
            _ => "---",
        };
        put(lines, Line::one(label, ink(Color::Yellow).bold()));
    }
    proof {
        assert(lines.deep_view() =~= start + zone_lines(before, zone));
    }
}

fn show_directory(g: &DirectoryGroup) -> (r: Vec<Line>)
    ensures
        r.deep_view() == directory_lines(g.deep_view()),
{
    let ghost s = g.filenames.deep_view();
    let mut lines: Vec<Line> = nothing();
    put(
        &mut lines,
        Line::one(text::cat2(g.display_path.as_str(), "/").as_str(), ink(Color::Cyan).bold()),
    );
    let mut files: Vec<Line> = nothing();
    let mut i: usize = 0;
    while i < g.filenames.len()
        invariant
            i <= g.filenames.len(),
            s == g.filenames.deep_view(),
            files.len() == i,
            forall|k: int| 0 <= k < i ==> (#[trigger] files[k]).deep_view() == file_line()(s[k]),
        decreases g.filenames.len() - i,
    {
        let mut spans: Vec<Span> = nothing();
        put(&mut spans, Span::raw("  "));
        put(&mut spans, Span::styled(g.filenames[i].as_str(), ink(Color::White)));
        files.push(Line::of(spans));
        i = i + 1;
    }
    proof {
        assert(files.deep_view() =~= s.map_values(file_line()));
    }
    put_all(&mut lines, files);
    lines
}

/// All lines of the list.
pub fn list_lines(state: &IntakeConfirmationState) -> (r: Vec<Line>)
    ensures
        r.deep_view() == state@.lines(),
{
    let ghost s = state.grouped_files.deep_view();
    let mut lines: Vec<Line> = nothing();
    let mut last_zone: Option<Zone> = None;
    proof {
        assert(s.take(0) =~= Seq::<GroupModel>::empty());
    }
    let mut i: usize = 0;
    while i < state.grouped_files.len()
        invariant
            i <= state.grouped_files.len(),
            s == state.grouped_files.deep_view(),
            lines.deep_view() == list_of(s.take(i as int), state.multi_zone),
            last_zone == (if i > 0 {
                Some(s[i - 1].zone)
            } else {
                None
            }),
        decreases state.grouped_files.len() - i,
    {
        let g: &DirectoryGroup = &state.grouped_files[i];
        proof {
            let t = s.take(i as int + 1);
            assert(t.drop_last() =~= s.take(i as int));
            assert(t.last() == g.deep_view());
            assert(i > 0 ==> t[t.len() - 2] == s[i - 1]);
            assert(lines.deep_view() + Seq::<LineModel>::empty() =~= lines.deep_view());
        }
        if state.multi_zone {
            put_zone(&mut lines, last_zone, g.zone);
        }
        last_zone = Some(g.zone);
        put_all(&mut lines, show_directory(g));
        i = i + 1;
    }
    proof {
        assert(s.take(s.len() as int) =~= s);
    }
    lines
}

/// How many lines the list has.
pub fn total_list_lines(state: &IntakeConfirmationState) -> (r: usize)
    ensures
        r == state@.lines().len(),
{
    let lines: Vec<Line> = list_lines(state);
    proof {
        assert(lines.deep_view().len() == lines.len());
    }
    lines.len()
}

/// Answers an input, with a list of a height.
pub fn handle_input(
    state: &mut IntakeConfirmationState,
    action: &InputAction,
    visible_height: usize,
) -> (r: IntakeConfirmationAction)
    ensures
        (final(state)@, r) == old(state)@.step(*action, visible_height as nat),
{
    match action {
        InputAction::Confirm => IntakeConfirmationAction::Confirmed,
        InputAction::Cancel => IntakeConfirmationAction::Skipped,
        InputAction::NavUp => {
            if state.scroll_offset > 0 {
                state.scroll_offset = state.scroll_offset - 1;
            }
            IntakeConfirmationAction::Nothing
        },
        InputAction::NavDown => {
            let total: usize = total_list_lines(state);
            if total > visible_height && state.scroll_offset < total - visible_height {
                state.scroll_offset = state.scroll_offset + 1;
            }
            IntakeConfirmationAction::Nothing
        },
        _ => IntakeConfirmationAction::Nothing,
    }
}

/// How many lines of the list are shown on a screen of a height: the dialog has
/// at most 24 lines, of which frame, header and footer take 7.
#[verifier::allow_in_spec]
pub fn compute_list_visible_height(height: u16) -> usize
    returns
        (if height < 9 {
            0usize
        } else if height < 26 {
            (height - 9) as usize
        } else {
            17usize
        }),
{
    let dialog: u16 = if height < 2 {
        0
    } else if height - 2 < 24 {
        height - 2
    } else {
        24
    };
    if dialog < 7 {
        0
    } else {
        (dialog - 7) as usize
    }
}

/// The part of the list that is shown, and where in the list it is.
pub fn render_list(state: &IntakeConfirmationState, visible_height: usize) -> (r: (
    Vec<Line>,
    Option<String>,
))
    ensures
        r.0.deep_view() == state@.shown(visible_height as nat),
        r.1.deep_view() == state@.note(visible_height as nat),
{
    let lines: Vec<Line> = list_lines(state);
    proof {
        assert(lines.deep_view().len() == lines.len());
    }
    let total: usize = lines.len();
    let last: usize = if total > visible_height {
        total - visible_height
    } else {
        0
    };
    let offset: usize = if state.scroll_offset < last {
        state.scroll_offset
    } else {
        last
    };
    let note: Option<String> = if total > visible_height {
        Some(
            text::cat5(
                " [",
                text::place(offset).as_str(),
                "/",
                text::place(last).as_str(),
                "] ",
            ),
        )
    } else {
        None
    };
    (visible(lines, offset, visible_height), note)
}

/// How many files of what size there are.
pub fn render_header(state: &IntakeConfirmationState, size: &str) -> (r: Vec<Line>)
    ensures
        r.deep_view() == state@.header(size@),
{
    let mut spans: Vec<Span> = nothing();
    put(
        &mut spans,
        Span::styled(
            text::cat2(text::count(state.file_count).as_str(), " files").as_str(),
            ink(Color::Yellow).bold(),
        ),
    );
    put(&mut spans, Span::raw(" to index  "));
    put(&mut spans, Span::styled(text::cat3("(", size, ")").as_str(), ink(Color::DarkGray)));
    let mut lines: Vec<Line> = nothing();
    put(&mut lines, Line::of(spans));
    put(&mut lines, Line::blank());
    lines
}

/// The keys.
pub fn render_footer() -> (r: Vec<Line>)
    ensures
        r.deep_view() == footer(),
{
    let mut spans: Vec<Span> = nothing();
    put(&mut spans, Span::styled("[Enter]", ink(Color::Cyan)));
    put(&mut spans, Span::raw(" Index  "));
    put(&mut spans, Span::styled("[Esc]", ink(Color::Cyan)));
    put(&mut spans, Span::raw(" Skip  "));
    put(&mut spans, Span::styled("[↑↓]", ink(Color::DarkGray)));
    put(&mut spans, Span::raw(" Scroll"));
    let mut lines: Vec<Line> = nothing();
    put(&mut lines, Line::blank());
    put(&mut lines, Line::of(spans));
    lines
}

/// Scrolling stays inside the list, and changes nothing else.
pub proof fn law_scroll_in_list(m: IntakeModel, action: InputAction, height: nat)
    requires
        m.scroll_offset <= last_scroll(m.lines().len(), height),
        m.lines().len() <= usize::MAX,
    ensures
        m.step(action, height).0.scroll_offset <= last_scroll(m.lines().len(), height),
        m.step(action, height).0.lines() == m.lines(),
{
}

/// Scrolled as far as it goes, the window ends with the last line.
pub proof fn law_end_is_reached(m: IntakeModel, height: nat)
    requires
        m.lines().len() > 0,
        height > 0,
        m.scroll_offset >= last_scroll(m.lines().len(), height),
    ensures
        m.shown(height).len() > 0,
        m.shown(height).last() == m.lines().last(),
{
}

/// Enter takes the files in, Esc skips them, and nothing else answers; up and down
/// scroll line by line and not past the ends.
pub proof fn law_intake_is_answered(m: IntakeModel, action: InputAction, height: nat)
    requires
        m.lines().len() <= usize::MAX,
    ensures
        m.step(action, height).1 == IntakeConfirmationAction::Confirmed <==> action is Confirm,
        m.step(action, height).1 == IntakeConfirmationAction::Skipped <==> action is Cancel,
        m.step(action, height).0.grouped_files == m.grouped_files,
        m.step(action, height).0.file_count == m.file_count,
        m.step(action, height).0.scroll_offset == (if action is NavUp && m.scroll_offset > 0 {
            m.scroll_offset - 1
        } else if action is NavDown && m.scroll_offset + height < m.lines().len() {
            m.scroll_offset + 1
        } else {
            m.scroll_offset as int
        }),
{
}

/// Every directory is listed with its files behind it, in turn; where there are
/// several zones, each stretch of one begins with its name.
pub proof fn law_every_file_is_listed(groups: Seq<GroupModel>, g: GroupModel, multi_zone: bool)
    ensures
        ({
            let before = list_of(groups, multi_zone);
            let after = list_of(groups.push(g), multi_zone);
            let n = g.filenames.len() as int;
            &&& after.take(before.len() as int) == before
            &&& after.len() >= before.len() + n + 1
            &&& forall|i: int|
                0 <= i < n ==> #[trigger] after[after.len() - n + i].spans[1].text == g.filenames[i]
            &&& after[after.len() - n - 1].spans[0].text == g.display_path + "/"@
            &&& !multi_zone ==> after.len() == before.len() + n + 1
            &&& multi_zone && groups.len() > 0 && groups.last().zone == g.zone ==> after.len()
                == before.len() + n + 1
            &&& multi_zone && groups.len() > 0 && groups.last().zone != g.zone ==> after.len()
                == before.len() + n + 3 && after[before.len() as int + 1].spans[0].text
                == zone_label(g.zone)
            &&& multi_zone && groups.len() == 0 ==> after.len() == n + 2 && after[0].spans[0].text
                == zone_label(g.zone)
        }),
        list_of(Seq::empty(), multi_zone).len() == 0,
{
    let all = groups.push(g);
    assert(all.drop_last() =~= groups);
    let before = list_of(groups, multi_zone);
    let after = list_of(all, multi_zone);
    let heading: Seq<LineModel> = if multi_zone {
        zone_lines(
            if all.len() > 1 {
                Some(all[all.len() - 2].zone)
            } else {
                None
            },
            g.zone,
        )
    } else {
        Seq::empty()
    };
    assert(after == before + heading + directory_lines(g));
    assert(after.take(before.len() as int) =~= before);
    let n = g.filenames.len() as int;
    assert forall|i: int| 0 <= i < n implies #[trigger] after[after.len() - n + i].spans[1].text
        == g.filenames[i] by {
        assert(after[after.len() - n + i] == directory_lines(g)[1 + i]);
    }
    assert(after[after.len() - n - 1] == directory_lines(g)[0]);
}

} // verus!
