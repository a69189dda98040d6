//! The views of the program: their names, how the screen is divided for them,
//! and what is asked before leaving.

use vstd::prelude::*;

use crate::screen::{blank, ink, line, list12, list4, nothing, put, Color, Line, Pane, PaneModel, Style};
use crate::text::{self, decimal};

verus! {

/// The view that is shown.
#[derive(Debug, Clone, Copy, PartialEq, Eq, Structural)]
pub enum ActiveView {
    MigrationApproval,
    VacuumPrompt,
    ConfigEditor,
    Insights,
    Inbox,
    Transaction,
    CorpusBrowser,
    TagSearch,
    Progress,
    ProgressiveWork,
    ExitConfirm,
    IntakeConfirmation,
    UnifiedTagEditor,
    Deploy,
    MissingFileResolution,
    MissingDirectoryResolution,
    CorruptFileResolution,
    ShitFormatResolution,
    EmbedAlbumArtResolution,
    SubparDuplicateResolution,
    InboxCorpusMatchResolution,
    InboxOrganize,
    DirectoryClusterResolution,
    MovedFileAcknowledge,
    OobSyncResolution,
    OobConflictInspection,
    TagCanonicityResolution,
    CompoundTagSplit,
    MissingAlbumSingleResolution,
    ManualReview,
    TransactionReview,
}

impl ActiveView {
    /// The name.
    pub open spec fn words(self) -> Seq<char> {
        match self {
            ActiveView::MigrationApproval => "migration_approval"@,
            ActiveView::VacuumPrompt => "vacuum_prompt"@,
            ActiveView::ConfigEditor => "config_editor"@,
            ActiveView::Insights => "insights"@,
            ActiveView::Inbox => "inbox"@,
            ActiveView::Transaction => "transaction"@,
            ActiveView::CorpusBrowser => "corpus_browser"@,
            ActiveView::TagSearch => "tag_search"@,
            ActiveView::Progress => "progress"@,
            ActiveView::ProgressiveWork => "progressive_work"@,
            ActiveView::ExitConfirm => "exit_confirm"@,
            ActiveView::IntakeConfirmation => "intake_confirmation"@,
            ActiveView::UnifiedTagEditor => "unified_tag_editor"@,
            ActiveView::Deploy => "deploy"@,
            ActiveView::MissingFileResolution => "missing_file_resolution"@,
            ActiveView::MissingDirectoryResolution => "missing_directory_resolution"@,
            ActiveView::CorruptFileResolution => "corrupt_file_resolution"@,
            ActiveView::ShitFormatResolution => "shit_format_resolution"@,
            ActiveView::EmbedAlbumArtResolution => "embed_album_art_resolution"@,
            ActiveView::SubparDuplicateResolution => "subpar_duplicate_resolution"@,
            ActiveView::InboxCorpusMatchResolution => "inbox_corpus_match_resolution"@,
            ActiveView::InboxOrganize => "inbox_organize"@,
            ActiveView::DirectoryClusterResolution => "directory_cluster_resolution"@,
            ActiveView::MovedFileAcknowledge => "moved_file_acknowledge"@,
            ActiveView::OobSyncResolution => "oob_sync_resolution"@,
            ActiveView::OobConflictInspection => "oob_conflict_inspection"@,
            ActiveView::TagCanonicityResolution => "tag_canonicity_resolution"@,
            ActiveView::CompoundTagSplit => "compound_tag_split"@,
            ActiveView::MissingAlbumSingleResolution => "missing_album_single"@,
            ActiveView::ManualReview => "manual_review"@,
            ActiveView::TransactionReview => "transaction_review"@,
        }
    }
}

/// The name of a view.
pub fn view_name(view: ActiveView) -> (r: &'static str)
    ensures
        r@ == view.words(),
{
    match view {
        ActiveView::MigrationApproval => "migration_approval",
        ActiveView::VacuumPrompt => "vacuum_prompt",
        ActiveView::ConfigEditor => "config_editor",
        ActiveView::Insights => "insights",
        ActiveView::Inbox => "inbox",
        ActiveView::Transaction => "transaction",
        ActiveView::CorpusBrowser => "corpus_browser",
        ActiveView::TagSearch => "tag_search",
        ActiveView::Progress => "progress",
        ActiveView::ProgressiveWork => "progressive_work",
        ActiveView::ExitConfirm => "exit_confirm",
        ActiveView::IntakeConfirmation => "intake_confirmation",
        ActiveView::UnifiedTagEditor => "unified_tag_editor",
        ActiveView::Deploy => "deploy",
        ActiveView::MissingFileResolution => "missing_file_resolution",
        ActiveView::MissingDirectoryResolution => "missing_directory_resolution",
        ActiveView::CorruptFileResolution => "corrupt_file_resolution",
        ActiveView::ShitFormatResolution => "shit_format_resolution",
        ActiveView::EmbedAlbumArtResolution => "embed_album_art_resolution",
        ActiveView::SubparDuplicateResolution => "subpar_duplicate_resolution",
        ActiveView::InboxCorpusMatchResolution => "inbox_corpus_match_resolution",
        ActiveView::InboxOrganize => "inbox_organize",
        ActiveView::DirectoryClusterResolution => "directory_cluster_resolution",
        ActiveView::MovedFileAcknowledge => "moved_file_acknowledge",
        ActiveView::OobSyncResolution => "oob_sync_resolution",
        ActiveView::OobConflictInspection => "oob_conflict_inspection",
        ActiveView::TagCanonicityResolution => "tag_canonicity_resolution",
        ActiveView::CompoundTagSplit => "compound_tag_split",
        ActiveView::MissingAlbumSingleResolution => "missing_album_single",
        ActiveView::ManualReview => "manual_review",
        ActiveView::TransactionReview => "transaction_review",
    }
}

/// The name of what a view shows between its bars.
pub open spec fn content_words(view: ActiveView) -> Seq<char> {
    if view == ActiveView::ExitConfirm {
        "exit_confirm_modal"@
    } else {
        view.words()
    }
}

/// The name of what a view shows between its bars.
pub fn content_name(view: ActiveView) -> (r: &'static str)
    ensures
        r@ == content_words(view),
{
    if view == ActiveView::ExitConfirm {
        "exit_confirm_modal"
    } else {
        view_name(view)
    }
}

/// Whether drawing took longer than a frame has.
#[verifier::allow_in_spec]
pub fn is_slow(millis: u64) -> bool
    returns
        (millis > 16),
{
    millis > 16
}

/// A note on a view whose contents took long to draw.
pub fn content_note(view: ActiveView, millis: u64) -> (r: Option<String>)
    ensures
        r.deep_view() == (if is_slow(millis) {
            Some(
                "[RENDER DEBUG] render_content("@ + content_words(view) + ") took "@ + decimal(
                    millis as nat,
                ) + "ms"@,
            )
        } else {
            None
        }),
{
    if is_slow(millis) {
        Some(
            text::cat5(
                "[RENDER DEBUG] render_content(",
                content_name(view),
                ") took ",
                text::dec(millis as u128).as_str(),
                "ms",
            ),
        )
    } else {
        None
    }
}

/// A note on a view one of whose parts took long to draw. The header is there
/// where the bar of views is not.
pub fn frame_note(view: ActiveView, header: Option<u64>, content: u64, footer: u64) -> (r: Option<
    String,
>)
    ensures
        r.deep_view() == (if (header matches Some(h) && is_slow(h)) || is_slow(content) || is_slow(
            footer,
        ) {
            Some(
                "[RENDER DEBUG] view="@ + view.words() + (match header {
                    Some(h) => " header="@ + decimal(h as nat) + "ms"@,
                    None => Seq::empty(),
                }) + (" content="@ + decimal(content as nat) + "ms"@) + (" footer="@ + decimal(
                    footer as nat,
                ) + "ms"@),
            )
        } else {
            None
        }),
{
    let late: bool = match header {
        Some(h) => is_slow(h),
        None => false,
    };
    if late || is_slow(content) || is_slow(footer) {
        let head: String = match header {
            Some(h) => text::cat3(" header=", text::dec(h as u128).as_str(), "ms"),
            None => {
                let empty: String = String::new();
                proof {
                    assert(empty@ =~= Seq::<char>::empty());
                }
                empty
            },
        };
        let body: String = text::cat3(" content=", text::dec(content as u128).as_str(), "ms");
        let foot: String = text::cat3(" footer=", text::dec(footer as u128).as_str(), "ms");
        Some(
            text::cat5(
                "[RENDER DEBUG] view=",
                view_name(view),
                head.as_str(),
                body.as_str(),
                foot.as_str(),
            ),
        )
    } else {
        None
    }
}

/// How the screen is divided.
#[derive(Debug, Clone, Copy, PartialEq, Eq, Structural)]
pub enum ScreenLayout {
    /// The view has all of it
    Whole,
    /// The bar of views, the view, the status
    TitleBar,
    /// A header, the view, the status
    Header,
}

/// How the screen is divided for a view, which may be one of those that Tab
/// goes round.
#[verifier::allow_in_spec]
pub fn screen_layout(view: ActiveView, lateral: bool) -> ScreenLayout
    returns
        (if view == ActiveView::Progress {
            ScreenLayout::Whole
        } else if lateral {
            ScreenLayout::TitleBar
        } else {
            ScreenLayout::Header
        }),
{
    if view == ActiveView::Progress {
        ScreenLayout::Whole
    } else if lateral {
        ScreenLayout::TitleBar
    } else {
        ScreenLayout::Header
    }
}

/// The frames of the eye.
#[derive(Debug, Clone, Copy, PartialEq, Eq, Structural)]
pub enum EyeFrame {
    Open,
    Closing,
    Closed,
}

/// The frame of the eye on the progress screen, unless the screen brings its own.
#[verifier::allow_in_spec]
pub fn progress_eye(uses_closed_eye: bool, frame: EyeFrame) -> Option<EyeFrame>
    returns
        (if uses_closed_eye {
            None
        } else {
            Some(frame)
        }),
{
    if uses_closed_eye {
        None
    } else {
        Some(frame)
    }
}

/// Whether the bar of views shows that there are staged decisions: there is a
/// transaction, and it holds at least one.
#[verifier::allow_in_spec]
pub fn transaction_has_decisions(has_transaction: bool, decisions: Option<usize>) -> bool
    returns
        (has_transaction && (match decisions {
            Some(n) => n > 0,
            None => false,
        })),
{
    has_transaction && (match decisions {
        Some(n) => n > 0,
        None => false,
    })
}

/// The header: the name of the program, with what the view adds.
pub fn header_title(program: &str, suffix: Option<&str>) -> (r: String)
    ensures
        r@ == (match suffix {
            Some(s) => program@ + " - "@ + s@,
            None => program@,
        }),
{
    match suffix {
        Some(s) => text::cat3(program, " - ", s),
        None => program.to_owned(),
    }
}

/// A button of a modal.
#[derive(Debug)]
pub struct ModalButton {
    pub label: String,
    pub selected: bool,
    pub style: Style,
}

/// The model of a [`ModalButton`].
pub struct ModalButtonModel {
    pub label: Seq<char>,
    pub selected: bool,
    pub style: Style,
}

impl DeepView for ModalButton {
    type V = ModalButtonModel;

    open spec fn deep_view(&self) -> ModalButtonModel {
        ModalButtonModel { label: self.label@, selected: self.selected, style: self.style }
    }
}

/// What is asked before leaving.
#[derive(Debug, Clone, Copy, PartialEq, Eq, Structural)]
pub struct ExitConfirmModalState {
    /// The button that stays is in hand
    pub selected_no: bool,
    /// Something is still running
    pub has_operations: bool,
}

/// A button, in hand or not.
pub open spec fn button(label: Seq<char>, selected: bool, ground: Color) -> ModalButtonModel {
    ModalButtonModel {
        label,
        selected,
        style: if selected {
            ink(Color::Black).bg(ground)
        } else {
            ink(Color::White)
        },
    }
}

fn make_button(label: &str, selected: bool, ground: Color) -> (r: ModalButton)
    ensures
        r.deep_view() == button(label@, selected, ground),
{
    ModalButton {
        label: label.to_owned(),
        selected,
        style: if selected {
            ink(Color::Black).bg(ground)
        } else {
            ink(Color::White)
        },
    }
}

impl ExitConfirmModalState {
    /// The lines over the buttons.
    pub open spec fn content(self) -> PaneModel {
        if self.has_operations {
            PaneModel {
                title: " Warning "@,
                lines: list12(
                    blank(),
                    crate::screen::line_of(
                        seq![
                            crate::screen::span(
                                "Operation In Progress"@,
                                ink(Color::Yellow).bold(),
                            ),
                        ],
                    ),
                    blank(),
                    line("An operation is currently running."@, Style::plain()),
                    line("Exiting now may leave your library"@, Style::plain()),
                    line("in an inconsistent state."@, Style::plain()),
                    blank(),
                    crate::screen::line_of(
                        seq![
                            crate::screen::span(
                                "No guarantees about safety or integrity."@,
                                ink(Color::Red),
                            ),
                        ],
                    ),
                    blank(),
                    blank(),
                    line("Exit anyway?"@, Style::plain()),
                    blank(),
                ),
                border: Style::plain(),
            }
        } else {
            PaneModel {
                title: " Exit "@,
                lines: list4(
                    blank(),
                    line("Exit MM?"@, Style::plain()),
                    blank(),
                    blank(),
                ),
                border: Style::plain(),
            }
        }
    }

    /// The button that leaves, and the one that stays.
    pub open spec fn buttons(self) -> (ModalButtonModel, ModalButtonModel) {
        if self.has_operations {
            (
                button("Yes"@, !self.selected_no, Color::Red),
                button("No"@, self.selected_no, Color::Green),
            )
        } else {
            (
                button("Confirm"@, !self.selected_no, Color::Cyan),
                button("Cancel"@, self.selected_no, Color::Gray),
            )
        }
    }
}

/// What is asked before leaving: the lines, and under them the button that
/// leaves and the one that stays.
pub fn render_exit_confirm_modal(state: &ExitConfirmModalState) -> (r: (
    Pane,
    ModalButton,
    ModalButton,
))
    ensures
        r.0.deep_view() == state.content(),
        (r.1.deep_view(), r.2.deep_view()) == state.buttons(),
{
    let mut lines: Vec<Line> = nothing();
    put(&mut lines, Line::blank());
    if state.has_operations {
        put(&mut lines, Line::one("Operation In Progress", ink(Color::Yellow).bold()));
        put(&mut lines, Line::blank());
        put(&mut lines, Line::raw("An operation is currently running."));
        put(&mut lines, Line::raw("Exiting now may leave your library"));
        put(&mut lines, Line::raw("in an inconsistent state."));
        put(&mut lines, Line::blank());
        put(
            &mut lines,
            Line::one("No guarantees about safety or integrity.", ink(Color::Red)),
        );
        put(&mut lines, Line::blank());
        put(&mut lines, Line::blank());
        put(&mut lines, Line::raw("Exit anyway?"));
        put(&mut lines, Line::blank());
        (
            Pane { title: " Warning ".to_owned(), lines, border: Style::plain() },
            make_button("Yes", !state.selected_no, Color::Red),
            make_button("No", state.selected_no, Color::Green),
        )
    } else {
        put(&mut lines, Line::raw("Exit MM?"));
        put(&mut lines, Line::blank());
        put(&mut lines, Line::blank());
        (
            Pane { title: " Exit ".to_owned(), lines, border: Style::plain() },
            make_button("Confirm", !state.selected_no, Color::Cyan),
            make_button("Cancel", state.selected_no, Color::Gray),
        )
    }
}

/// Exactly one of the two buttons is in hand.
pub proof fn law_one_button_in_hand(state: ExitConfirmModalState)
    ensures
        state.buttons().0.selected != state.buttons().1.selected,
        state.buttons().1.selected == state.selected_no,
{
}

} // verus!
