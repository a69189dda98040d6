//! The screen that shows the files before they are converted.

use vstd::prelude::*;
use vstd::string::StringSliceAdditionalSpecFns;
use vstd::utf8::encode_utf8;

use crate::input::{KeyCode, KeyEvent};
use crate::screen::{blank, ink, less, line, line_of, list2, nothing, put, put_all, span, visible, window, Color, Line, LineModel, Pane, PaneModel, Span, SpanModel, Style, TitledPane, TitledPaneModel};
use crate::shit_format_flow::types::BITRATE_STEP;
use crate::shit_format_modal::types::{lossless_format, DataModel, EntryModel, SelectedButton, ShitFormatEntry, ShitFormatModalData};
use crate::text::{self, cut_left, decimal, lowercase, signed_decimal};
use crate::widgets::{down, down_one, down_page, down_ten, last_place, up_one, up_ten};

verus! {

/// What the screen asks for.
#[derive(Debug, Clone, Copy, PartialEq, Eq, Structural)]
pub enum ShitFormatPreviewAction {
    /// Nothing
    Nothing,
    /// Bring the lossless files to FLAC
    ConfirmRemuxLossless,
    /// Convert the lossy files
    ConfirmTranscodeLossy,
    /// Convert all files
    ConfirmConvertAll,
    /// Leave
    Cancel,
}

/// The screen.
#[derive(Debug)]
pub struct ShitFormatPreviewState {
    /// The files
    pub cached_data: ShitFormatModalData,
    /// The first file that is shown
    pub scroll: usize,
    /// The button in hand
    pub selected_button: SelectedButton,
}

/// The model of a [`ShitFormatPreviewState`].
pub struct FormatPreviewModel {
    pub data: DataModel,
    pub scroll: usize,
    pub selected_button: SelectedButton,
}

impl View for ShitFormatPreviewState {
    type V = FormatPreviewModel;

    open spec fn view(&self) -> FormatPreviewModel {
        FormatPreviewModel {
            data: self.cached_data.deep_view(),
            scroll: self.scroll,
            selected_button: self.selected_button,
        }
    }
}

impl FormatPreviewModel {
    /// The screen as it opens: on the first button that has something to do.
    pub open spec fn opened(data: DataModel) -> Self {
        FormatPreviewModel {
            data,
            scroll: 0,
            selected_button: if data.lossless_files.len() > 0 {
                SelectedButton::RemuxLossless
            } else if data.lossy_files.len() > 0 {
                SelectedButton::TranscodeLossy
            } else {
                SelectedButton::Cancel
            },
        }
    }

    /// How many files there are.
    pub open spec fn total(self) -> nat {
        self.data.lossless_files.len() + self.data.lossy_files.len()
    }

    /// Whether there are lossless files.
    pub open spec fn lossless(self) -> bool {
        self.data.lossless_files.len() > 0
    }

    /// Whether there are lossy files.
    pub open spec fn lossy(self) -> bool {
        self.data.lossy_files.len() > 0
    }

    /// Whether left and right change the bitrate.
    pub open spec fn on_bitrate(self) -> bool {
        self.selected_button == SelectedButton::TranscodeLossy || self.selected_button
            == SelectedButton::ConvertAll
    }

    /// The button to the left.
    pub open spec fn to_prev(self) -> Self {
        FormatPreviewModel {
            selected_button: self.selected_button.before(self.lossless(), self.lossy()),
            ..self
        }
    }

    /// The button to the right.
    pub open spec fn to_next(self) -> Self {
        FormatPreviewModel {
            selected_button: self.selected_button.after(self.lossless(), self.lossy()),
            ..self
        }
    }

    /// A left: a lower bitrate, or the button to the left.
    pub open spec fn left(self) -> Self {
        if self.on_bitrate() {
            FormatPreviewModel {
                data: self.data.with_change(-BITRATE_STEP),
                ..self
            }
        } else {
            self.to_prev()
        }
    }

    /// A right: a higher bitrate, or the button to the right.
    pub open spec fn right(self) -> Self {
        if self.on_bitrate() {
            FormatPreviewModel {
                data: self.data.with_change(BITRATE_STEP as int),
                ..self
            }
        } else {
            self.to_next()
        }
    }

    /// What the button in hand asks for.
    pub open spec fn pressed(self) -> ShitFormatPreviewAction {
        match self.selected_button {
            SelectedButton::RemuxLossless => if self.lossless() {
                ShitFormatPreviewAction::ConfirmRemuxLossless
            } else {
                ShitFormatPreviewAction::Nothing
            },
            SelectedButton::TranscodeLossy => if self.lossy() {
                ShitFormatPreviewAction::ConfirmTranscodeLossy
            } else {
                ShitFormatPreviewAction::Nothing
            },
            SelectedButton::ConvertAll => if self.lossless() || self.lossy() {
                ShitFormatPreviewAction::ConfirmConvertAll
            } else {
                ShitFormatPreviewAction::Nothing
            },
            SelectedButton::Cancel => ShitFormatPreviewAction::Cancel,
        }
    }

    /// The answer to a key.
    pub open spec fn key_step(self, key: KeyEvent) -> (
        FormatPreviewModel,
        ShitFormatPreviewAction,
    ) {
        let code = key.code;
        let stay = ShitFormatPreviewAction::Nothing;
        if code == KeyCode::Up || code == KeyCode::Char('k') {
            (FormatPreviewModel { scroll: up_one(self.scroll), ..self }, stay)
        } else if code == KeyCode::Down || code == KeyCode::Char('j') {
            (FormatPreviewModel { scroll: down(self.scroll, self.total()), ..self }, stay)
        } else if code == KeyCode::PageUp {
            (FormatPreviewModel { scroll: up_ten(self.scroll), ..self }, stay)
        } else if code == KeyCode::PageDown {
            (FormatPreviewModel { scroll: down_page(self.scroll, self.total()), ..self }, stay)
        } else if code == KeyCode::Left || code == KeyCode::Char('h') {
            (self.left(), stay)
        } else if code == KeyCode::Right || code == KeyCode::Char('l') {
            (self.right(), stay)
        } else if code == KeyCode::Tab {
            (self.to_next(), stay)
        } else if code == KeyCode::BackTab {
            (self.to_prev(), stay)
        } else if code == KeyCode::Enter {
            (self, self.pressed())
        } else if code == KeyCode::Esc {
            (self, ShitFormatPreviewAction::Cancel)
        } else {
            (self, stay)
        }
    }
}

impl ShitFormatPreviewState {
    /// The screen over its files.
    pub fn new(cached_data: ShitFormatModalData) -> (r: Self)
        ensures
            r@ == FormatPreviewModel::opened(cached_data.deep_view()),
    {
        let selected_button: SelectedButton = if cached_data.has_lossless() {
            SelectedButton::RemuxLossless
        } else if cached_data.has_lossy() {
            SelectedButton::TranscodeLossy
        } else {
            SelectedButton::Cancel
        };
        ShitFormatPreviewState { cached_data, scroll: 0, selected_button }
    }

    fn on_bitrate(&self) -> (r: bool)
        ensures
            r == self@.on_bitrate(),
    {
        self.selected_button == SelectedButton::TranscodeLossy || self.selected_button
            == SelectedButton::ConvertAll
    }

    /// Answers a key.
    pub fn handle_key(&mut self, key: KeyEvent) -> (r: ShitFormatPreviewAction)
        requires
            old(self)@.data.wf(),
        ensures
            (final(self)@, r) == old(self)@.key_step(key),
            final(self)@.data.wf(),
    {
        let has_lossless: bool = self.cached_data.has_lossless();
        let has_lossy: bool = self.cached_data.has_lossy();
        let total: usize = self.cached_data.total_count();
        match key.code {
            KeyCode::Up | KeyCode::Char('k') => {
                self.scroll = up_one(self.scroll);
                ShitFormatPreviewAction::Nothing
            },
            KeyCode::Down | KeyCode::Char('j') => {
                self.scroll = down_one(self.scroll, total);
                ShitFormatPreviewAction::Nothing
            },
            KeyCode::PageUp => {
                self.scroll = up_ten(self.scroll);
                ShitFormatPreviewAction::Nothing
            },
            KeyCode::PageDown => {
                self.scroll = down_ten(self.scroll, total);
                ShitFormatPreviewAction::Nothing
            },
            KeyCode::Left | KeyCode::Char('h') => {
                if self.on_bitrate() {
                    self.cached_data.decrease_bitrate();
                } else {
                    self.selected_button.prev(has_lossless, has_lossy);
                }
                ShitFormatPreviewAction::Nothing
            },
            KeyCode::Right | KeyCode::Char('l') => {
                if self.on_bitrate() {
                    self.cached_data.increase_bitrate();
                } else {
                    self.selected_button.next(has_lossless, has_lossy);
                }
                ShitFormatPreviewAction::Nothing
            },
            KeyCode::Tab => {
                self.selected_button.next(has_lossless, has_lossy);
                ShitFormatPreviewAction::Nothing
            },
            KeyCode::BackTab => {
                self.selected_button.prev(has_lossless, has_lossy);
                ShitFormatPreviewAction::Nothing
            },
            KeyCode::Enter => match self.selected_button {
                SelectedButton::RemuxLossless => if has_lossless {
                    ShitFormatPreviewAction::ConfirmRemuxLossless
                } else {
                    ShitFormatPreviewAction::Nothing
                },
                SelectedButton::TranscodeLossy => if has_lossy {
                    ShitFormatPreviewAction::ConfirmTranscodeLossy
                } else {
                    ShitFormatPreviewAction::Nothing
                },
                SelectedButton::ConvertAll => if has_lossless || has_lossy {
                    ShitFormatPreviewAction::ConfirmConvertAll
                } else {
                    ShitFormatPreviewAction::Nothing
                },
                SelectedButton::Cancel => ShitFormatPreviewAction::Cancel,
            },
            KeyCode::Esc => ShitFormatPreviewAction::Cancel,
            _ => ShitFormatPreviewAction::Nothing,
        }
    }
}

/// The line of a type with its count.
pub open spec fn type_line() -> spec_fn((Seq<char>, i64)) -> LineModel {
    |c: (Seq<char>, i64)|
        line("  "@ + c.0 + ": "@ + signed_decimal(c.1 as int), ink(Color::White))
}

/// The lines of types with their counts.
fn show_types(counts: &Vec<(String, i64)>) -> (r: Vec<Line>)
    ensures
        r.deep_view() == counts.deep_view().map_values(type_line()),
{
    let ghost s = counts.deep_view();
    let mut out: Vec<Line> = nothing();
    let mut i: usize = 0;
    while i < counts.len()
        invariant
            i <= counts.len(),
            s == counts.deep_view(),
            out.len() == i,
            forall|k: int| 0 <= k < i ==> (#[trigger] out[k]).deep_view() == type_line()(s[k]),
        decreases counts.len() - i,
    {
        let l: Line = Line::styled(
            text::cat4(
                "  ",
                counts[i].0.as_str(),
                ": ",
                text::signed(counts[i].1).as_str(),
            ).as_str(),
            ink(Color::White),
        );
        proof {
            assert(l.deep_view() == type_line()(s[i as int]));
        }
        out.push(l);
        i = i + 1;
    }
    proof {
        assert(out.deep_view() =~= s.map_values(type_line()));
    }
    out
}

/// The tag of a file type.
pub open spec fn type_tag(file_type: Seq<char>) -> Seq<char> {
    "["@ + file_type + "] "@
}

/// The line of a file, in a pane of a width. The path has the room that is left
/// by the bytes of the tag.
pub open spec fn file_line(f: EntryModel, width: u16) -> LineModel {
    let tag = type_tag(f.file_type);
    let taken = (encode_utf8(tag).len() as usize) as u16;
    line_of(
        list2(
            span(
                tag,
                if lossless_format(lowercase(f.file_type)) {
                    ink(Color::Green)
                } else {
                    ink(Color::Cyan)
                },
            ),
            span(cut_left(f.corpus_path, less(width as int, taken + 2)), ink(Color::White)),
        ),
    )
}

fn show_file(f: &ShitFormatEntry, width: u16) -> (r: Line)
    ensures
        r.deep_view() == file_line(f.deep_view(), width),
{
    let tag: String = text::cat3("[", f.file_type.as_str(), "] ");
    let words: &str = tag.as_str();
    let bytes: usize = words.len();
    proof {
        assert(words@ == type_tag(f.file_type@));
        assert(words.spec_bytes() == encode_utf8(words@));
    }
    let taken: u32 = (bytes as u16) as u32 + 2;
    let room: usize = if width as u32 > taken {
        (width as u32 - taken) as usize
    } else {
        0
    };
    let path: String = text::truncate_left(f.corpus_path.as_str(), room);
    let mut spans: Vec<Span> = nothing();
    put(
        &mut spans,
        Span::styled(
            tag.as_str(),
            if f.is_lossless() {
                ink(Color::Green)
            } else {
                ink(Color::Cyan)
            },
        ),
    );
    put(&mut spans, Span::styled(path.as_str(), ink(Color::White)));
    Line::of(spans)
}

/// The lines of files.
pub open spec fn file_lines(files: Seq<EntryModel>, width: u16) -> Seq<LineModel> {
    Seq::new(files.len(), |i: int| file_line(files[i], width))
}

fn show_files(files: &Vec<ShitFormatEntry>, width: u16) -> (r: Vec<Line>)
    ensures
        r.deep_view() == file_lines(files.deep_view(), width),
{
    let ghost want = file_lines(files.deep_view(), width);
    let mut out: Vec<Line> = nothing();
    let mut i: usize = 0;
    while i < files.len()
        invariant
            i <= files.len(),
            want == file_lines(files.deep_view(), width),
            out.len() == i,
            forall|k: int| 0 <= k < i ==> (#[trigger] out[k]).deep_view() == want[k],
        decreases files.len() - i,
    {
        out.push(show_file(&files[i], width));
        i = i + 1;
    }
    proof {
        assert(out.deep_view() =~= want);
    }
    out
}

/// How a button looks, in hand or not.
#[verifier::allow_in_spec]
pub fn button_style(in_hand: bool, color: Color) -> Style
    returns
        (if in_hand {
            ink(Color::Black).bg(color).bold()
        } else {
            ink(color)
        }),
{
    if in_hand {
        ink(Color::Black).bg(color).bold()
    } else {
        ink(color)
    }
}

/// A button with a blank behind it, if it is there.
pub open spec fn button(there: bool, label: Seq<char>, in_hand: bool, color: Color) -> Seq<
    SpanModel,
> {
    if there {
        list2(span(label, button_style(in_hand, color)), span(" "@, Style::plain()))
    } else {
        Seq::empty()
    }
}

fn show_button(there: bool, label: &str, in_hand: bool, color: Color) -> (r: Vec<Span>)
    ensures
        r.deep_view() == button(there, label@, in_hand, color),
{
    let mut spans: Vec<Span> = nothing();
    if there {
        put(&mut spans, Span::styled(label, button_style(in_hand, color)));
        put(&mut spans, Span::raw(" "));
    }
    spans
}

impl FormatPreviewModel {
    /// The title.
    pub open spec fn title(self) -> LineModel {
        line_of(
            list2(
                span(" Shit Format Resolution "@, ink(Color::Yellow).bold()),
                span(
                    " ("@ + decimal(self.data.lossless_files.len()) + " lossless, "@ + decimal(
                        self.data.lossy_files.len(),
                    ) + " lossy)"@,
                    ink(Color::DarkGray),
                ),
            ),
        )
    }

    /// The lossless types.
    pub open spec fn lossless_view(self) -> PaneModel {
        PaneModel {
            title: " Lossless → FLAC "@,
            lines: if self.lossless() {
                list2(line("Remux to FLAC (lossless)"@, ink(Color::DarkGray)), blank())
                    + self.data.lossless_types().map_values(type_line())
            } else {
                seq![line("No lossless files"@, ink(Color::DarkGray))]
            },
            border: if self.lossless() {
                ink(Color::Green)
            } else {
                ink(Color::DarkGray)
            },
        }
    }

    /// The lossy types, under the bitrate.
    pub open spec fn lossy_view(self) -> PaneModel {
        PaneModel {
            title: " Lossy → Opus "@,
            lines: if self.lossy() {
                self.data.lossy_types().map_values(type_line())
            } else {
                seq![line("No lossy files"@, ink(Color::DarkGray))]
            },
            border: if self.lossy() {
                ink(Color::Cyan)
            } else {
                ink(Color::DarkGray)
            },
        }
    }

    /// The files, the lossless first.
    pub open spec fn files_view(self, width: u16, height: u16) -> TitledPaneModel {
        TitledPaneModel {
            title: line(
                " Files ("@ + decimal(self.total()) + ") "@,
                if self.total() > 0 {
                    ink(Color::Yellow)
                } else {
                    ink(Color::DarkGray)
                },
            ),
            lines: if self.total() == 0 {
                seq![line("No shit format files found"@, ink(Color::DarkGray))]
            } else {
                window(
                    file_lines(self.data.lossless_files, width) + file_lines(
                        self.data.lossy_files,
                        width,
                    ),
                    self.scroll as nat,
                    height as nat,
                )
            },
            border: ink(Color::Yellow),
        }
    }

    /// The buttons that have something to do, and the one that cancels.
    pub open spec fn buttons(self) -> LineModel {
        line_of(
            button(
                self.lossless(),
                " Remux "@ + decimal(self.data.lossless_files.len()) + " to FLAC "@,
                self.selected_button == SelectedButton::RemuxLossless,
                Color::Green,
            ) + button(
                self.lossy(),
                " Transcode "@ + decimal(self.data.lossy_files.len()) + " to Opus ("@ + decimal(
                    self.data.opus_bitrate_kbps as nat,
                ) + " kbps) "@,
                self.selected_button == SelectedButton::TranscodeLossy,
                Color::Cyan,
            ) + button(
                self.lossless() && self.lossy(),
                " Convert All "@,
                self.selected_button == SelectedButton::ConvertAll,
                Color::Yellow,
            ) + seq![
                span(
                    " Cancel "@,
                    button_style(self.selected_button == SelectedButton::Cancel, Color::White),
                ),
            ],
        )
    }

    /// The keys.
    pub open spec fn hints(self) -> LineModel {
        let tab = span(" [Tab] switch buttons"@, ink(Color::DarkGray));
        line_of(
            if self.on_bitrate() && self.lossy() {
                list2(span(" [←/→] adjust bitrate"@, ink(Color::DarkGray)), tab)
            } else {
                seq![tab]
            },
        )
    }
}

impl ShitFormatPreviewState {
    /// The title.
    pub fn render_title(&self) -> (r: Line)
        ensures
            r.deep_view() == self@.title(),
    {
        let mut spans: Vec<Span> = nothing();
        put(&mut spans, Span::styled(" Shit Format Resolution ", ink(Color::Yellow).bold()));
        put(
            &mut spans,
            Span::styled(
                text::cat5(
                    " (",
                    text::count(self.cached_data.lossless_files.len()).as_str(),
                    " lossless, ",
                    text::count(self.cached_data.lossy_files.len()).as_str(),
                    " lossy)",
                ).as_str(),
                ink(Color::DarkGray),
            ),
        );
        Line::of(spans)
    }

    /// The lossless types.
    pub fn render_lossless_section(&self) -> (r: Pane)
        ensures
            r.deep_view() == self@.lossless_view(),
    {
        let there: bool = self.cached_data.has_lossless();
        let mut lines: Vec<Line> = nothing();
        if there {
            put(&mut lines, Line::styled("Remux to FLAC (lossless)", ink(Color::DarkGray)));
            put(&mut lines, Line::blank());
            put_all(&mut lines, show_types(&self.cached_data.lossless_breakdown()));
        } else {
            put(&mut lines, Line::styled("No lossless files", ink(Color::DarkGray)));
        }
        Pane {
            title: " Lossless → FLAC ".to_owned(),
            lines,
            border: if there {
                ink(Color::Green)
            } else {
                ink(Color::DarkGray)
            },
        }
    }

    /// The lossy types, under the bitrate.
    pub fn render_lossy_section(&self) -> (r: Pane)
        ensures
            r.deep_view() == self@.lossy_view(),
    {
        let there: bool = self.cached_data.has_lossy();
        let lines: Vec<Line> = if there {
            show_types(&self.cached_data.lossy_breakdown())
        } else {
            let mut lines: Vec<Line> = nothing();
            put(&mut lines, Line::styled("No lossy files", ink(Color::DarkGray)));
            lines
        };
        Pane {
            title: " Lossy → Opus ".to_owned(),
            lines,
            border: if there {
                ink(Color::Cyan)
            } else {
                ink(Color::DarkGray)
            },
        }
    }

    /// The gauge of the bitrate: its label, and how much of how much is filled.
    pub fn bitrate_gauge(&self) -> (r: (String, u32, u32))
        requires
            self@.data.in_bounds(),
        ensures
            r.0@ == decimal(self@.data.opus_bitrate_kbps as nat) + " kbps"@,
            r.1 == self@.data.opus_bitrate_kbps - 32,
            r.2 == 480,
            r.1 <= r.2,
    {
        let kbps: u32 = self.cached_data.opus_bitrate_kbps;
        (text::cat2(text::dec(kbps as u128).as_str(), " kbps"), kbps - 32, 480)
    }

    /// The files, in a pane of this size.
    pub fn render_file_list(&self, width: u16, height: u16) -> (r: TitledPane)
        requires
            self@.data.countable(),
        ensures
            r.deep_view() == self@.files_view(width, height),
    {
        let total: usize = self.cached_data.total_count();
        let lines: Vec<Line> = if total == 0 {
            let mut lines: Vec<Line> = nothing();
            put(&mut lines, Line::styled("No shit format files found", ink(Color::DarkGray)));
            lines
        } else {
            let mut all: Vec<Line> = show_files(&self.cached_data.lossless_files, width);
            put_all(&mut all, show_files(&self.cached_data.lossy_files, width));
            visible(all, self.scroll, height as usize)
        };
        TitledPane {
            title: Line::styled(
                text::cat3(" Files (", text::count(total).as_str(), ") ").as_str(),
                if total > 0 {
                    ink(Color::Yellow)
                } else {
                    ink(Color::DarkGray)
                },
            ),
            lines,
            border: ink(Color::Yellow),
        }
    }

    /// The buttons.
    pub fn render_buttons(&self) -> (r: Line)
        ensures
            r.deep_view() == self@.buttons(),
    {
        let has_lossless: bool = self.cached_data.has_lossless();
        let has_lossy: bool = self.cached_data.has_lossy();
        let remux: String = text::cat3(
            " Remux ",
            text::count(self.cached_data.lossless_files.len()).as_str(),
            " to FLAC ",
        );
        let transcode: String = text::cat5(
            " Transcode ",
            text::count(self.cached_data.lossy_files.len()).as_str(),
            " to Opus (",
            text::dec(self.cached_data.opus_bitrate_kbps as u128).as_str(),
            " kbps) ",
        );
        let mut spans: Vec<Span> = show_button(
            has_lossless,
            remux.as_str(),
            self.selected_button == SelectedButton::RemuxLossless,
            Color::Green,
        );
        put_all(
            &mut spans,
            show_button(
                has_lossy,
                transcode.as_str(),
                self.selected_button == SelectedButton::TranscodeLossy,
                Color::Cyan,
            ),
        );
        put_all(
            &mut spans,
            show_button(
                has_lossless && has_lossy,
                " Convert All ",
                self.selected_button == SelectedButton::ConvertAll,
                Color::Yellow,
            ),
        );
        let ghost before = spans.deep_view();
        put(
            &mut spans,
            Span::styled(
                " Cancel ",
                button_style(self.selected_button == SelectedButton::Cancel, Color::White),
            ),
        );
        proof {
            let cancel = span(
                " Cancel "@,
                button_style(self.selected_button == SelectedButton::Cancel, Color::White),
            );
            assert(before.push(cancel) =~= before + seq![cancel]);
        }
        Line::of(spans)
    }

    /// The keys.
    pub fn render_hints(&self) -> (r: Line)
        ensures
            r.deep_view() == self@.hints(),
    {
        let mut spans: Vec<Span> = nothing();
        if self.on_bitrate() && self.cached_data.has_lossy() {
            put(&mut spans, Span::styled(" [←/→] adjust bitrate", ink(Color::DarkGray)));
        }
        put(&mut spans, Span::styled(" [Tab] switch buttons", ink(Color::DarkGray)));
        Line::of(spans)
    }
}

/// The bitrate stays between its bounds and the files stay as they are,
/// whatever key comes; and what is scrolled to stays one of the files.
pub proof fn law_keys_keep_files(m: FormatPreviewModel, key: KeyEvent)
    requires
        m.data.wf(),
        m.scroll <= last_place(m.total()),
    ensures
        m.key_step(key).0.data.wf(),
        m.data.in_bounds() ==> m.key_step(key).0.data.in_bounds(),
        m.key_step(key).0.data.lossless_files == m.data.lossless_files,
        m.key_step(key).0.data.lossy_files == m.data.lossy_files,
        m.key_step(key).0.scroll <= last_place(m.total()),
{
}

/// Files are converted only by Enter.
pub proof fn law_convert_only_by_enter(m: FormatPreviewModel, key: KeyEvent)
    requires
        m.key_step(key).1 != ShitFormatPreviewAction::Nothing,
        m.key_step(key).1 != ShitFormatPreviewAction::Cancel,
    ensures
        key.code == KeyCode::Enter,
        m.key_step(key).0 == m,
        m.total() > 0,
{
}

/// The files are listed in turn, the lossless before the lossy, each with its type.
pub proof fn law_files_have_lines(m: FormatPreviewModel, width: u16, i: int)
    ensures
        ({
            let all = file_lines(m.data.lossless_files, width) + file_lines(
                m.data.lossy_files,
                width,
            );
            let n = m.data.lossless_files.len();
            &&& all.len() == n + m.data.lossy_files.len()
            &&& 0 <= i < n ==> all[i].spans[0].text == "["@ + m.data.lossless_files[i].file_type
                + "] "@
            &&& n <= i < n + m.data.lossy_files.len() ==> all[i].spans[0].text == "["@
                + m.data.lossy_files[i - n].file_type + "] "@
        }),
{
}

/// A button is there where it has something to do, and the chosen one is lit.
pub proof fn law_button_is_there(there: bool, label: Seq<char>, in_hand: bool, color: Color)
    ensures
        !there ==> button(there, label, in_hand, color).len() == 0,
        there ==> button(there, label, in_hand, color)[0].text == label && (button(
            there,
            label,
            in_hand,
            color,
        )[0].style.bg is Some <==> in_hand),
{
}

} // verus!
