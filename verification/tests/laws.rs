use mm_ui::corpus::{AudioFile, AudioInfo, IndexEntry, Track, Zone};
use mm_ui::input::{InputAction, KeyCode, KeyEvent};
use mm_ui::multi_track_editor::state::{TagEditorAction, TagEditorState};
use mm_ui::oob_sync::{OobSyncAction, OobSyncDirection, OobSyncFile, OobSyncState};
use mm_ui::progress_screen::{ProgressScreen, Pulse};
use mm_ui::tag_editor::directory_state::{DirectoryTagEditorState, GatheringMessage};
use mm_ui::tag_editor::state::UnifiedTagEditorState;
use mm_ui::tag_editor::types::{AggregatedValue, FieldEditState, TagEditorSource, TagField, UnifiedTagEditorAction};
use mm_ui::work_status::{ReasoningLevel, WorkStateSnapshot, WorkStatus};

fn key(code: KeyCode) -> KeyEvent {
    KeyEvent { code, control: false, shift: false }
}

fn pulse(state: WorkStateSnapshot, pending: u64, queue: u64, level: ReasoningLevel) -> Pulse {
    Pulse {
        elapsed_ms: 10,
        status: WorkStatus {
            total_processed: 0,
            session_queued: pending,
            pending,
            state,
            pending_by_label: Vec::new(),
        },
        db_stats: None,
        worker_stats: None,
        db_queue_depth: queue,
        reasoning_level: level,
    }
}

#[test]
fn three_idle_pulses_complete_and_stay_complete() {
    let mut screen = ProgressScreen::new_signal_refresh();
    let idle = || pulse(WorkStateSnapshot::Idle, 0, 0, ReasoningLevel::Full);
    screen.tick(idle());
    screen.tick(idle());
    assert!(screen.tick(idle()));
    screen.tick(pulse(WorkStateSnapshot::Working, 5, 0, ReasoningLevel::Full));
    assert!(screen.is_complete());
}

#[test]
fn waiting_writes_keep_the_screen_open() {
    let mut screen = ProgressScreen::new_content_analysis();
    for _ in 0..5 {
        assert!(!screen.tick(pulse(WorkStateSnapshot::Idle, 0, 3, ReasoningLevel::Full)));
    }
}

#[test]
fn eyeballing_ends_with_full_reasoning() {
    let mut screen = ProgressScreen::new_eyeballing();
    assert!(!screen.tick(pulse(WorkStateSnapshot::Done, 0, 0, ReasoningLevel::Inodes)));
    assert!(screen.tick(pulse(WorkStateSnapshot::Working, 9, 9, ReasoningLevel::Full)));
}

#[test]
fn rows_and_bars_keep_their_size() {
    let mut screen = ProgressScreen::new_content_analysis();
    screen.tick(pulse(WorkStateSnapshot::Working, 4, 0, ReasoningLevel::Full));
    let total: u16 = screen.row_heights(40, true).iter().sum();
    assert!(total <= 40);
    if let Some(bar) = screen.progress_bar(60) {
        assert!(bar.starts_with('⠸') && bar.ends_with('⠇'));
    }
}

fn track(id: i64) -> Track {
    Track {
        id: Some(id),
        path: format!("/m/{}.flac", id),
        source: "corpus".to_string(),
        inode: id,
        file_size: 1,
        file_type: "flac".to_string(),
        artist: Some(format!("A{}", id)),
        album: None,
        album_artist: None,
        title: Some(format!("T{}", id)),
        track_number: Some(id as i32),
        genre: None,
        duration_ms: None,
        bitrate_kbps: None,
        sample_rate: None,
        fingerprint: None,
        isrc: None,
    }
}

#[test]
fn filling_reaches_shared_fields_only() {
    let mut editor = TagEditorState::new(vec![track(1), track(2)], Vec::new(), vec![None, None]);
    let at = editor.tag_fields[0].iter().position(|f| f.value == "A1").unwrap();
    assert!(!editor.tag_fields[0][at].is_unique_per_track);
    for _ in 0..at {
        editor.handle_key(key(KeyCode::Down));
    }
    assert!(matches!(
        editor.handle_key(key(KeyCode::Char('f'))),
        TagEditorAction::StatusMessage(m) if m == "Value copied to all tracks"
    ));
    assert_eq!(editor.tag_fields[1][at].value, "A1");
    assert!(editor.tag_fields[1].iter().any(|f| f.value == "T2"));
    assert!(editor.has_changes());
}

#[test]
fn tabbing_past_the_last_track_asks_to_save() {
    let mut editor = TagEditorState::new(vec![track(1), track(2)], Vec::new(), vec![None, None]);
    assert!(matches!(editor.handle_key(key(KeyCode::Tab)), TagEditorAction::Nothing));
    assert_eq!(editor.current_track_idx, 1);
    assert!(matches!(editor.handle_key(key(KeyCode::Tab)), TagEditorAction::ShowModal(_)));
    assert!(editor.current_track_idx < 2);
}

#[test]
fn differing_values_take_two_enters_and_come_back() {
    let mut editor =
        DirectoryTagEditorState::start_gathering("/m/b".to_string(), vec!["/m/b".to_string()]);
    let one = |index: usize, genre: &str| GatheringMessage::FileProcessed {
        index,
        path: format!("/m/b/{}.flac", index),
        tags: vec![("GENRE".to_string(), genre.to_string())],
    };
    editor.poll_gathering(vec![
        GatheringMessage::TotalFiles(2),
        one(0, "x"),
        one(1, "y"),
        GatheringMessage::Complete,
    ]);
    let at = editor
        .aggregated_fields
        .iter()
        .position(|f| matches!(f.value, AggregatedValue::Various))
        .unwrap();
    for _ in 0..at {
        editor.move_down();
    }
    editor.handle_enter();
    assert!(matches!(editor.aggregated_fields[at].value, AggregatedValue::VariousConfirming));
    assert_eq!(editor.field_edit_state, FieldEditState::NonEditable);
    editor.handle_enter();
    assert_eq!(editor.field_edit_state, FieldEditState::EditingValue);
    assert_eq!(editor.value_buffer, "");
    editor.handle_escape();
    assert!(matches!(editor.aggregated_fields[at].value, AggregatedValue::Various));
    assert!(!editor.has_changes());
}

#[test]
fn sides_are_accepted_by_enter_on_a_button_alone() {
    let mut s = OobSyncState::new(vec![OobSyncFile {
        path: "a".to_string(),
        direction: OobSyncDirection::DiskToIndex,
        mismatches: Vec::new(),
    }]);
    assert_ne!(s.handle_input(&InputAction::Confirm), OobSyncAction::AcceptDisk);
    s.handle_input(&InputAction::FocusDown);
    assert_eq!(s.handle_input(&InputAction::Confirm), OobSyncAction::AcceptDisk);
}

fn editor() -> UnifiedTagEditorState {
    let field = |name: &str, value: &str| TagField {
        name: name.to_string(),
        value: value.to_string(),
        editable: true,
        deleted: false,
    };
    UnifiedTagEditorState::single_file(
        AudioFile {
            entry: IndexEntry {
                path: "corpus/x.flac".to_string(),
                inode: 1,
                zone: Zone::Corpus,
                file_size: 1,
            },
            audio: AudioInfo {
                file_type: "flac".to_string(),
                duration_ms: None,
                bitrate_kbps: None,
                sample_rate: None,
            },
        },
        TagEditorSource::CorpusBrowser,
        None,
        vec![field("ARTIST", "A"), field("New Tag", "")],
    )
}

#[test]
fn marking_twice_changes_nothing() {
    let mut e = editor();
    e.toggle_current_field_deleted();
    assert!(e.tag_fields[0][0].deleted);
    e.toggle_current_field_deleted();
    assert!(!e.tag_fields[0][0].deleted);
    e.current_field_idx = 1;
    e.toggle_current_field_deleted();
    assert!(!e.tag_fields[0][1].deleted);
}

#[test]
fn leaving_with_changes_asks_first() {
    let mut e = editor();
    assert!(matches!(
        e.handle_input(&InputAction::Cancel),
        UnifiedTagEditorAction::DiscardTransaction
    ));
    e.tag_fields[0][0].value = "B".to_string();
    assert!(matches!(e.handle_input(&InputAction::Cancel), UnifiedTagEditorAction::Nothing));
    assert!(e.modal.is_some());
    assert!(matches!(e.handle_input(&InputAction::Cancel), UnifiedTagEditorAction::CloseModal));
    assert_eq!(e.tag_fields[0][0].value, "B");
    assert_eq!(e.original_tag_fields[0][0].value, "A");
}

#[test]
fn taking_back_what_was_typed() {
    let mut e = editor();
    let before = e.value_buffer.clone();
    e.insert_char('z');
    e.delete_char();
    assert_eq!(e.value_buffer, before);
}
