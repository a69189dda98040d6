use mm_ui::corpus::Track;
use mm_ui::input::{KeyCode, KeyEvent};
use mm_ui::multi_track_editor::fields::{
    compute_changes, group_common_changes, track_to_tag_fields, DuplicateGroupInfo,
};
use mm_ui::multi_track_editor::render::save_confirmation_modal;
use mm_ui::multi_track_editor::state::{TagEditorAction, TagEditorState};

fn track(id: i64) -> Track {
    Track {
        id: Some(id),
        path: format!("/m/{}.flac", id),
        source: "corpus".to_string(),
        inode: id,
        file_size: 1000,
        file_type: "flac".to_string(),
        artist: Some("A".to_string()),
        album: Some("B".to_string()),
        album_artist: None,
        title: Some(format!("T{}", id)),
        track_number: Some(id as i32),
        genre: None,
        duration_ms: Some(1000),
        bitrate_kbps: None,
        sample_rate: None,
        fingerprint: None,
        isrc: None,
    }
}

fn key(code: KeyCode) -> KeyEvent {
    KeyEvent { code, control: false, shift: false }
}

#[test]
fn fields_of_a_track() {
    let fields = track_to_tag_fields(&track(1), None);
    assert!(fields.iter().any(|f| f.value == "A"));
    assert!(fields.iter().any(|f| f.value == "T1"));
}

#[test]
fn a_change_to_all_tracks_is_grouped() {
    let original =
        vec![track_to_tag_fields(&track(1), None), track_to_tag_fields(&track(2), None)];
    let mut current =
        vec![track_to_tag_fields(&track(1), None), track_to_tag_fields(&track(2), None)];
    assert!(compute_changes(&original, &current).is_empty());
    for fields in current.iter_mut() {
        for f in fields.iter_mut() {
            if f.value == "A" {
                f.value = "C".to_string();
            }
        }
    }
    for f in current[0].iter_mut() {
        if f.value == "T1" {
            f.value = "U".to_string();
        }
    }
    let changes = compute_changes(&original, &current);
    assert_eq!(changes.len(), 3);
    let (grouped, single) = group_common_changes(&changes);
    assert_eq!(grouped.len(), 1);
    assert_eq!(grouped[0].track_indices, vec![0, 1]);
    assert_eq!(grouped[0].new_value, "C");
    assert_eq!(single.len(), 1);
    assert_eq!(single[0].new_value, "U");
}

#[test]
fn leaving_without_changes_asks_nothing() {
    let mut editor = TagEditorState::new(vec![track(1), track(2)], Vec::new(), vec![None, None]);
    assert!(!editor.has_changes());
    let (grouped, single) = editor.get_changes_for_preview();
    assert!(grouped.is_empty() && single.is_empty());
    assert!(matches!(editor.handle_key(key(KeyCode::Esc)), TagEditorAction::Exit));
    assert_eq!(editor.track_list().len() >= 2, true);
    assert!(!editor.tag_fields_list().is_empty());
    assert!(!editor.info_pane().lines.is_empty());
    assert!(!save_confirmation_modal(0).lines.is_empty());
}

#[test]
fn workflow_starts_at_a_group() {
    let group = |id: i64| DuplicateGroupInfo {
        group_id: id,
        tracks: vec![track(id), track(id + 1)],
        resolved: false,
    };
    let editor =
        TagEditorState::new_for_duplicate_workflow(vec![group(1), group(5)], 1, vec![None, None]);
    let editor = editor.unwrap();
    assert_eq!(editor.tracks[0].id, Some(5));
    assert_eq!(editor.current_group_idx, Some(1));
    assert!(TagEditorState::new_for_duplicate_workflow(vec![group(1)], 4, Vec::new()).is_none());
}
