use mm_ui::input::InputAction;
use mm_ui::oob_sync::{
    OobSyncAction, OobSyncButton, OobSyncDirection, OobSyncFile, OobSyncState, TagMismatch,
};
use mm_ui::operator_decisions::ConfirmationGesture;
use mm_ui::screen::Rect;

fn file(path: &str, direction: OobSyncDirection) -> OobSyncFile {
    OobSyncFile {
        path: path.to_string(),
        direction,
        mismatches: vec![TagMismatch {
            field: "artist".to_string(),
            db_value: Some("a".to_string()),
            disk_value: None,
        }],
    }
}

fn state() -> OobSyncState {
    OobSyncState::new(vec![
        file("corpus/one.flac", OobSyncDirection::DiskToIndex),
        file("corpus/two.flac", OobSyncDirection::IndexToDisk),
        file("corpus/three.flac", OobSyncDirection::DiskToIndex),
    ])
}

#[test]
fn files_are_counted_by_direction() {
    let s = state();
    assert_eq!(s.disk_to_index_count(), 2);
    assert_eq!(s.index_to_disk_count(), 1);
    assert_eq!(s.selected_path(), Some("corpus/one.flac"));
    assert_eq!(s.get_filtered_indices(), vec![0, 1, 2]);
    assert!(s.mismatch_details().is_some());
    assert!(!s.title().is_empty());
}

#[test]
fn a_filter_keeps_what_holds_it() {
    let mut s = state();
    s.filter_input.insert_str("TWO");
    s.apply_filter();
    assert_eq!(s.get_filtered_indices(), vec![1]);
    s.clear_filter();
    assert_eq!(s.get_filtered_indices(), vec![0, 1, 2]);
}

#[test]
fn buttons_are_hit_where_they_are_drawn() {
    let mut s = state();
    s.layout_buttons(Rect { x: 0, y: 5, width: 80, height: 1 });
    assert!(!s.button_rects.rects.is_empty());
    let (button, rect) = (s.button_rects.rects[0].0, s.button_rects.rects[0].1);
    assert_eq!(s.button_rects.hit_test(rect.x, rect.y), Some(button));
    assert_eq!(s.button_rects.hit_test(rect.x, rect.y + 5), None);
    let gesture = ConfirmationGesture::from_click(rect.x, rect.y, &rect).unwrap();
    assert!(s.handle_click(79, 0, &gesture).is_none());
    assert_eq!(s.handle_click(rect.x, rect.y, &gesture), Some(OobSyncAction::AcceptDisk));
    assert_eq!(s.selected_button, OobSyncButton::AcceptDisk);
}

#[test]
fn buttons_stop_at_the_ends() {
    assert_eq!(OobSyncButton::AcceptDisk.left(), OobSyncButton::AcceptDisk);
    assert_eq!(OobSyncButton::Cancel.right(), OobSyncButton::Cancel);
    assert_eq!(OobSyncButton::AcceptDisk.right(), OobSyncButton::AcceptDb);
}

#[test]
fn cancelling_leaves() {
    let mut s = state();
    assert_eq!(s.handle_input(&InputAction::Cancel), OobSyncAction::Cancel);
    s.handle_input(&InputAction::NavDown);
    assert_eq!(s.current_file, 1);
    s.handle_input(&InputAction::NavUp);
    s.handle_input(&InputAction::NavUp);
    assert_eq!(s.current_file, 0);
}
