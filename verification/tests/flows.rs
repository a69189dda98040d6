use mm_ui::corpus::{DecisionKey, DecisionSource, Mutation, TranscodeTarget};
use mm_ui::editor_launch::{
    bulk_transaction_label, open_unified_tag_editor_for_directory, search_bulk_transaction_label, single_transaction_label, start_tag_editor_for_path, EditorLaunch,
};
use mm_ui::input::{InputAction, KeyCode, KeyEvent};
use mm_ui::operator_decisions::{
    commit_transaction, discard_transaction, remove_decision, stage_decision, ConfirmationGesture, Decision, TransactionRequest,
};
use mm_ui::picker::{Picker, PickerOption, PickerResult};
use mm_ui::screen::Rect;
use mm_ui::shit_format_flow::preview::{ShitFormatPreviewAction, ShitFormatPreviewState};
use mm_ui::shit_format_flow::types as flow;
use mm_ui::shit_format_modal::types as modal;
use mm_ui::subpar_duplicate_flow::preview::{
    FocusPane, SubparDuplicatePreviewAction, SubparDuplicatePreviewState,
};
use mm_ui::subpar_duplicate_flow::types::{
    SelectedButton, SubparDuplicateModalData, SubparRow, TrackKey,
};
use mm_ui::subpar_duplicate_modal::types::stash_and_drop_mutations;
use mm_ui::tag_editor::types::TagEditorSource;
use mm_ui::transaction_review::{
    reaches_review, render_empty, TabbedTransactionReviewAction, TabbedTransactionReviewState, TransactionReviewAction,
};
use mm_ui::views::{
    content_name, content_note, frame_note, header_title, progress_eye, render_exit_confirm_modal, screen_layout, transaction_has_decisions, view_name, ActiveView, ExitConfirmModalState, EyeFrame, ScreenLayout,
};

fn key(code: KeyCode) -> KeyEvent {
    KeyEvent { code, control: false, shift: false }
}

fn subpar() -> SubparDuplicateModalData {
    let row = |path: &str, reason: &str, track: Option<TrackKey>| SubparRow {
        corpus_path: path.to_string(),
        reason: reason.to_string(),
        superior_path: format!("better/{}", path),
        track,
    };
    SubparDuplicateModalData::load(vec![
        row("a.mp3", "SubparBitrate", Some(TrackKey { id: Some(4), inode: 40 })),
        row("gone.mp3", "SubparFormat", None),
        row("b.mp3", "SubparFormat", Some(TrackKey { id: None, inode: 50 })),
        row("c.mp3", "Odd", Some(TrackKey { id: Some(6), inode: 60 })),
    ])
}

#[test]
fn worse_files_are_loaded_with_their_reasons() {
    let data = subpar();
    let reasons: Vec<&str> = data.files.iter().map(|f| f.reason.as_str()).collect();
    assert_eq!(reasons, vec!["Lower bitrate", "Worse format", "Odd"]);
    assert_eq!(data.files[1].track_id, 0);
    assert_eq!(data.total_count(), 3);
    assert!(data.has_files());
    assert!(!SubparDuplicateModalData::default().has_files());
}

#[test]
fn each_file_is_stashed_then_dropped() {
    let data = subpar();
    let mutations = data.stash_and_drop_mutations("/root");
    assert_eq!(mutations.len(), 6);
    match (&mutations[2], &mutations[3]) {
        (
            Mutation::MoveToStash { path, stash_name },
            Mutation::DropFromIndex { track_id, path: dropped, inode, source },
        ) => {
            assert_eq!(path, "/root/b.mp3");
            assert_eq!(stash_name, "subpar");
            assert_eq!(*track_id, Some(0));
            assert_eq!(dropped, "b.mp3");
            assert_eq!(*inode, Some(50));
            assert_eq!(source.as_deref(), Some("corpus"));
        }
        _ => panic!(),
    }
    let by_inode = stash_and_drop_mutations(&data, "/root");
    assert_eq!(by_inode.len(), 6);
    assert!(matches!(by_inode[1], Mutation::DropFromIndex { track_id: None, .. }));
}

#[test]
fn worse_files_are_stashed_only_by_the_button() {
    let mut state = SubparDuplicatePreviewState::new(subpar());
    assert_eq!(state.handle_key(key(KeyCode::Enter)), SubparDuplicatePreviewAction::Nothing);
    state.handle_key(key(KeyCode::Down));
    state.handle_key(key(KeyCode::Char('j')));
    state.handle_key(key(KeyCode::Down));
    assert_eq!(state.scroll, 2);
    state.handle_key(key(KeyCode::PageUp));
    assert_eq!(state.scroll, 0);
    state.handle_key(key(KeyCode::PageDown));
    assert_eq!(state.scroll, 2);
    state.handle_key(key(KeyCode::Left));
    assert_eq!(state.selected_button, SelectedButton::Cancel);
    state.handle_key(KeyEvent { code: KeyCode::Down, control: false, shift: true });
    assert_eq!(state.focus_pane, FocusPane::Buttons);
    assert_eq!(state.handle_key(key(KeyCode::Enter)), SubparDuplicatePreviewAction::Cancel);
    state.handle_key(key(KeyCode::Left));
    assert_eq!(state.handle_key(key(KeyCode::Enter)), SubparDuplicatePreviewAction::ConfirmStashAll);
    assert_eq!(state.render_content(80, 10).lines.len(), 1);
    assert_eq!(state.render_detail_pane().lines.len(), 2);
    assert_eq!(state.render_title().spans[1].text, " (3 files)");
    assert_eq!(state.render_controls().spans.len(), 5);
}

#[test]
fn files_to_convert_are_loaded_and_converted() {
    let mut data = flow::ShitFormatModalData::load(
        vec![
            flow::FormatRow {
                corpus_path: "x.mp3".to_string(),
                file_type: "mp3".to_string(),
                track: Some(flow::TrackFound { id: Some(3) }),
            },
            flow::FormatRow {
                corpus_path: "y.mp3".to_string(),
                file_type: "mp3".to_string(),
                track: None,
            },
        ],
        &vec![("mp3".to_string(), 1), ("m4a".to_string(), 5), ("mp3".to_string(), 2)],
    );
    assert_eq!(data.total_count(), 1);
    assert_eq!(data.file_counts, vec![("mp3".to_string(), 2), ("m4a".to_string(), 5)]);
    assert_eq!(data.type_breakdown()[0].0, "m4a");
    data.adjust_bitrate(1000);
    assert_eq!(data.opus_bitrate_kbps, 512);
    data.decrease_bitrate();
    assert_eq!(data.opus_bitrate_kbps, 504);
    data.adjust_bitrate(-1000);
    assert_eq!(data.opus_bitrate_kbps, 32);
    data.increase_bitrate();
    let mutations = data.transcode_mutations("/root");
    assert!(matches!(
        &mutations[0],
        Mutation::Transcode { subject: 3, source_path, target_format: TranscodeTarget::Opus { bitrate_kbps: 40 }, stash_name }
            if source_path == "/root/x.mp3" && stash_name == "originals"
    ));
    let empty = flow::ShitFormatModalData::load(Vec::new(), &vec![("mp3".to_string(), 1)]);
    assert!(empty.file_counts.is_empty());
    assert_eq!(empty.opus_bitrate_kbps, 128);
    let mut b = flow::SelectedButton::default();
    b.left(false);
    assert_eq!(b, flow::SelectedButton::Cancel);
    b.left(true);
    assert_eq!(b, flow::SelectedButton::TranscodeAll);
}

fn formats() -> modal::ShitFormatModalData {
    let row = |inode: i64, file_type: &str, path: Option<&str>| modal::InodeRow {
        inode,
        file_type: file_type.to_string(),
        corpus_path: path.map(|p| p.to_string()),
    };
    modal::ShitFormatModalData::load(
        vec![
            row(1, "WAV", Some("a.wav")),
            row(2, "mp3", Some("b.mp3")),
            row(3, "mp3", None),
            row(4, "xyz", Some("c.xyz")),
        ],
        &vec![("WAV".to_string(), 1), ("mp3".to_string(), 2), ("m4a".to_string(), 3), ("xyz".to_string(), 9)],
    )
}

#[test]
fn lossless_and_lossy_files_go_apart() {
    let mut data = formats();
    assert_eq!(data.total_count(), 2);
    assert_eq!(data.lossless_breakdown(), vec![("WAV".to_string(), 1)]);
    assert_eq!(data.lossy_breakdown(), vec![("m4a".to_string(), 3), ("mp3".to_string(), 2)]);
    let all = data.all_mutations("/r");
    assert_eq!(all.len(), 2);
    assert!(matches!(
        all[0],
        Mutation::Transcode { subject: 1, target_format: TranscodeTarget::Flac, .. }
    ));
    assert!(matches!(
        all[1],
        Mutation::Transcode { subject: 2, target_format: TranscodeTarget::Opus { bitrate_kbps: 128 }, .. }
    ));
    data.lossy_to_flac = true;
    assert!(matches!(
        data.lossy_mutations("/r")[0],
        Mutation::Transcode { target_format: TranscodeTarget::FlacLossyCapture, .. }
    ));
}

#[test]
fn keys_of_the_conversion_screen() {
    let mut state = ShitFormatPreviewState::new(formats());
    assert_eq!(state.selected_button, modal::SelectedButton::RemuxLossless);
    assert_eq!(
        state.handle_key(key(KeyCode::Enter)),
        ShitFormatPreviewAction::ConfirmRemuxLossless
    );
    state.handle_key(key(KeyCode::Right));
    assert_eq!(state.selected_button, modal::SelectedButton::TranscodeLossy);
    state.handle_key(key(KeyCode::Right));
    assert_eq!(state.cached_data.opus_bitrate_kbps, 136);
    state.handle_key(key(KeyCode::Char('h')));
    assert_eq!(state.cached_data.opus_bitrate_kbps, 128);
    assert_eq!(
        state.handle_key(key(KeyCode::Enter)),
        ShitFormatPreviewAction::ConfirmTranscodeLossy
    );
    state.handle_key(key(KeyCode::Tab));
    assert_eq!(state.handle_key(key(KeyCode::Enter)), ShitFormatPreviewAction::ConfirmConvertAll);
    state.handle_key(key(KeyCode::Tab));
    assert_eq!(state.handle_key(key(KeyCode::Enter)), ShitFormatPreviewAction::Cancel);
    state.handle_key(key(KeyCode::BackTab));
    assert_eq!(state.selected_button, modal::SelectedButton::ConvertAll);
    let (label, part, whole) = state.bitrate_gauge();
    assert_eq!((label.as_str(), part, whole), ("128 kbps", 96, 480));
    assert_eq!(state.render_file_list(30, 1).lines.len(), 1);
    assert_eq!(state.render_lossless_section().lines.len(), 3);
    assert_eq!(state.render_lossy_section().lines.len(), 2);
    assert_eq!(state.render_buttons().spans.len(), 7);
    assert_eq!(state.render_hints().spans.len(), 2);
    state.selected_button = modal::SelectedButton::TranscodeLossy;
    for (from, down, up) in [(0, 32, 32), (20, 32, 32), (1000, 512, 512), (510, 502, 512), (u32::MAX, 32, 32)] {
        state.cached_data.opus_bitrate_kbps = from;
        state.handle_key(key(KeyCode::Left));
        assert_eq!(state.cached_data.opus_bitrate_kbps, down);
        state.cached_data.opus_bitrate_kbps = from;
        state.handle_key(key(KeyCode::Right));
        assert_eq!(state.cached_data.opus_bitrate_kbps, up);
    }
    let mut empty = ShitFormatPreviewState::new(modal::ShitFormatModalData::default());
    assert_eq!(empty.selected_button, modal::SelectedButton::Cancel);
    assert_eq!(empty.handle_key(key(KeyCode::Left)), ShitFormatPreviewAction::Nothing);
    assert_eq!(empty.selected_button, modal::SelectedButton::Cancel);
}

#[test]
fn picker_goes_round() {
    let option = |v: &str| PickerOption {
        label: v.to_uppercase(),
        description: None,
        value: v.to_string(),
    };
    let mut p = Picker::new("Pick".to_string(), vec![option("a"), option("b")])
        .with_description("one".to_string());
    assert!(p.handle_key(key(KeyCode::Up)).is_none());
    assert_eq!(p.selected, 1);
    assert!(matches!(p.handle_key(key(KeyCode::Enter)), Some(PickerResult::Selected(v)) if v == "b"));
    p.handle_key(key(KeyCode::Down));
    assert_eq!(p.selected, 0);
    assert!(matches!(p.handle_key(key(KeyCode::Esc)), Some(PickerResult::Cancelled)));
    assert_eq!(p.render_options()[1].spans[0].text, "[2] ");
}

#[test]
fn transaction_view_leaves_by_quitting() {
    let mut view = TabbedTransactionReviewState::new(1u8);
    assert!(!reaches_review(&InputAction::CyclePrev));
    assert!(reaches_review(&InputAction::Confirm));
    let commit = || TransactionReviewAction::Other("commit");
    let r = view.handle_input(&InputAction::CycleNext, 2, commit());
    assert!(matches!(r, TabbedTransactionReviewAction::CycleNext));
    assert_eq!(view.review, 1);
    let r = view.handle_input(&InputAction::CyclePrev, 2, commit());
    assert!(matches!(r, TabbedTransactionReviewAction::CyclePrev));
    let r = view.handle_input(&InputAction::Confirm, 2, commit());
    assert!(matches!(r, TabbedTransactionReviewAction::Review("commit")));
    assert_eq!(view.review, 2);
    let r = view.handle_input(&InputAction::Cancel, 3, TransactionReviewAction::<u8>::Cancel);
    assert!(matches!(r, TabbedTransactionReviewAction::RequestQuit));
    assert!(render_empty(0).is_some());
    assert!(render_empty(1).is_none());
}

#[test]
fn decisions_ask_for_what_they_say() {
    let k = || DecisionKey::new(DecisionSource::TagEdit, "a".to_string());
    assert!(ConfirmationGesture::from_input(&InputAction::Cancel).is_none());
    let button = Rect { x: 4, y: 2, width: 6, height: 1 };
    assert!(ConfirmationGesture::from_click(3, 2, &button).is_none());
    assert!(ConfirmationGesture::from_click(4, 2, &button).is_some());
    let gesture = ConfirmationGesture::from_input(&InputAction::Confirm).unwrap();
    assert!(matches!(commit_transaction(&gesture), TransactionRequest::ConfirmTransaction { .. }));
    assert!(matches!(discard_transaction(), TransactionRequest::DiscardTransaction));
    assert!(matches!(
        remove_decision(&k(), &gesture),
        TransactionRequest::RemoveDecision { key, .. } if key.item == "a"
    ));
    let staged = stage_decision(k(), Decision { label: "l".to_string(), mutations: Vec::new() });
    assert!(matches!(staged, TransactionRequest::AddDecision { decision, .. } if decision.label == "l"));
}

#[test]
fn editor_opens_on_what_is_there() {
    assert!(matches!(
        start_tag_editor_for_path("/p", false, 3, 0),
        EditorLaunch::Abort { message } if message == "Path not in corpus: /p"
    ));
    assert!(matches!(
        start_tag_editor_for_path("/p", true, 0, 0),
        EditorLaunch::Abort { message } if message == "No indexed files at: /p"
    ));
    assert!(matches!(
        start_tag_editor_for_path("/p", true, 1, 0),
        EditorLaunch::Single { label, .. } if label == "Tag edits"
    ));
    assert!(matches!(
        start_tag_editor_for_path("/p", true, 4, 2),
        EditorLaunch::Bulk { label, start: 2, message: Some(m) }
            if label == "Bulk tag edits" && m == "Editing tags for /p"
    ));
    assert!(matches!(
        open_unified_tag_editor_for_directory("/d", true, 0),
        EditorLaunch::Stay { message } if message == "No indexed files found in /d"
    ));
    assert!(matches!(
        open_unified_tag_editor_for_directory("/d", true, 2),
        EditorLaunch::Directory { .. }
    ));
    assert_eq!(single_transaction_label(TagEditorSource::HealthModal), "Health tag edits");
    assert_eq!(bulk_transaction_label(TagEditorSource::TagSearch), "Tag search edits");
    assert_eq!(search_bulk_transaction_label(), "Tag search bulk edit");
}

#[test]
fn views_and_what_is_asked_before_leaving() {
    assert_eq!(view_name(ActiveView::MissingAlbumSingleResolution), "missing_album_single");
    assert_eq!(content_name(ActiveView::ExitConfirm), "exit_confirm_modal");
    assert_eq!(content_name(ActiveView::Inbox), "inbox");
    assert_eq!(content_note(ActiveView::Inbox, 16), None);
    assert_eq!(
        content_note(ActiveView::Inbox, 17).as_deref(),
        Some("[RENDER DEBUG] render_content(inbox) took 17ms")
    );
    assert_eq!(
        frame_note(ActiveView::Inbox, None, 20, 1).as_deref(),
        Some("[RENDER DEBUG] view=inbox content=20ms footer=1ms")
    );
    assert_eq!(
        frame_note(ActiveView::Deploy, Some(17), 2, 1).as_deref(),
        Some("[RENDER DEBUG] view=deploy header=17ms content=2ms footer=1ms")
    );
    assert_eq!(frame_note(ActiveView::Deploy, Some(16), 2, 1), None);
    assert_eq!(screen_layout(ActiveView::Progress, true), ScreenLayout::Whole);
    assert_eq!(screen_layout(ActiveView::Insights, true), ScreenLayout::TitleBar);
    assert_eq!(screen_layout(ActiveView::TagSearch, false), ScreenLayout::Header);
    assert_eq!(progress_eye(true, EyeFrame::Open), None);
    assert_eq!(progress_eye(false, EyeFrame::Open), Some(EyeFrame::Open));
    assert!(transaction_has_decisions(true, Some(1)));
    assert!(!transaction_has_decisions(true, Some(0)));
    assert!(!transaction_has_decisions(false, Some(1)));
    assert_eq!(header_title("MM", Some("x")), "MM - x");
    assert_eq!(header_title("MM", None), "MM");
    let (pane, yes, no) = render_exit_confirm_modal(&ExitConfirmModalState {
        selected_no: true,
        has_operations: true,
    });
    assert_eq!(pane.title, " Warning ");
    assert_eq!(pane.lines.len(), 12);
    assert_eq!((yes.label.as_str(), yes.selected), ("Yes", false));
    assert_eq!((no.label.as_str(), no.selected), ("No", true));
    let (pane, yes, _) = render_exit_confirm_modal(&ExitConfirmModalState {
        selected_no: false,
        has_operations: false,
    });
    assert_eq!(pane.title, " Exit ");
    assert!(yes.selected);
}

#[test]
fn an_empty_picker_is_cancelled() {
    let mut p = Picker::new("Pick".to_string(), Vec::new());
    assert!(p.handle_key(key(KeyCode::Char('x'))).is_none());
    assert!(matches!(p.handle_key(key(KeyCode::Esc)), Some(PickerResult::Cancelled)));
}
