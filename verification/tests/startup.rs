use mm_ui::corpus::Zone;
use mm_ui::input::{InputAction, KeyCode, KeyEvent};
use mm_ui::screen::Style;
use mm_ui::startup::first_time_setup::{
    db_setup_key, render_db_setup, render_description, render_picker_entry, DbSetupAction, DirectoryPickerState, PickerAction, TreeEntry,
};
use mm_ui::startup::intake_confirmation::{
    compute_list_visible_height, handle_input, render_footer, render_header, render_list, total_list_lines, DirectoryGroup, IntakeConfirmationAction, IntakeConfirmationState,
};
use mm_ui::startup::login::{render_login_field, LoginAction, LoginField, LoginState};

fn key(code: KeyCode) -> KeyEvent {
    KeyEvent { code, control: false, shift: false }
}

fn intake(multi_zone: bool) -> IntakeConfirmationState {
    let group = |zone: Zone, path: &str, files: &[&str]| DirectoryGroup {
        zone,
        display_path: path.to_string(),
        filenames: files.iter().map(|f| f.to_string()).collect(),
    };
    IntakeConfirmationState {
        grouped_files: vec![
            group(Zone::Corpus, "a", &["1", "2"]),
            group(Zone::Corpus, "b", &["3"]),
            group(Zone::Inbox, "c", &[]),
        ],
        multi_zone,
        scroll_offset: 0,
        file_count: 3,
    }
}

#[test]
fn list_has_as_many_lines_as_are_counted() {
    assert_eq!(total_list_lines(&intake(false)), 6);
    let state = intake(true);
    assert_eq!(total_list_lines(&state), 9);
    let (lines, note) = render_list(&state, 20);
    assert_eq!(lines.len(), 9);
    assert_eq!(note, None);
    assert_eq!(lines[0].spans[0].text, "--- Corpus ---");
    assert_eq!(lines[6].spans.len(), 0);
    assert_eq!(lines[7].spans[0].text, "--- Inbox ---");
    assert_eq!(lines[8].spans[0].text, "c/");
}

#[test]
fn list_scrolls_to_its_end_and_no_further() {
    let mut state = intake(true);
    for _ in 0..20 {
        handle_input(&mut state, &InputAction::NavDown, 4);
    }
    assert_eq!(state.scroll_offset, 5);
    let (lines, note) = render_list(&state, 4);
    assert_eq!(lines[3].spans[0].text, "c/");
    assert_eq!(note.as_deref(), Some(" [6/6] "));
    handle_input(&mut state, &InputAction::NavUp, 4);
    assert_eq!(state.scroll_offset, 4);
    assert_eq!(
        handle_input(&mut state, &InputAction::Confirm, 4),
        IntakeConfirmationAction::Confirmed
    );
    assert_eq!(
        handle_input(&mut state, &InputAction::Cancel, 4),
        IntakeConfirmationAction::Skipped
    );
    assert_eq!(compute_list_visible_height(5), 0);
    assert_eq!(compute_list_visible_height(20), 11);
    assert_eq!(compute_list_visible_height(100), 17);
    assert_eq!(render_header(&state, "1 MB")[0].spans[2].text, "(1 MB)");
    assert_eq!(render_footer().len(), 2);
}

#[test]
fn login_needs_a_name() {
    let mut state = LoginState::new();
    assert!(matches!(state.handle_key(key(KeyCode::Enter)), LoginAction::Nothing));
    assert_eq!(state.error_message.as_deref(), Some("Username required"));
    for c in " me ".chars() {
        state.handle_key(key(KeyCode::Char(c)));
    }
    assert_eq!(state.error_message, None);
    state.handle_key(key(KeyCode::Tab));
    assert_eq!(state.focused, LoginField::Password);
    assert!(state.password.focused && !state.username.focused);
    for c in "pw".chars() {
        state.handle_key(key(KeyCode::Char(c)));
    }
    match state.handle_key(key(KeyCode::Enter)) {
        LoginAction::Submit { username, password } => {
            assert_eq!(username, "me");
            assert_eq!(password, "pw");
        }
        _ => panic!(),
    }
    let hidden = render_login_field(&state.password, true);
    assert_eq!(hidden.spans[1].text, "**");
    state.login_refused("no".to_string());
    assert_eq!(state.password.value(), "");
    assert_eq!(state.focused, LoginField::Password);
    assert_eq!(state.render_last_line().spans[0].text, " no");
    state.handle_key(key(KeyCode::Up));
    assert_eq!(state.focused, LoginField::Username);
    assert!(matches!(state.handle_key(key(KeyCode::Esc)), LoginAction::Cancelled));
}

fn entry(path: &str, directory: bool, is_synthetic: bool, is_expanded: bool) -> TreeEntry {
    TreeEntry {
        path: path.to_string(),
        name: path.to_string(),
        depth: 1,
        directory,
        is_synthetic,
        has_children: true,
        is_expanded,
    }
}

#[test]
fn directories_are_picked_and_made() {
    let mut state = DirectoryPickerState::new();
    let dir = entry("/music", true, false, false);
    let new = entry("/music", false, true, false);
    let file = entry("/x", false, false, false);
    assert!(matches!(state.handle_key(key(KeyCode::Up), Some(&dir)), PickerAction::MoveUp));
    assert!(matches!(
        state.handle_key(key(KeyCode::Enter), Some(&dir)),
        PickerAction::Select(p) if p == "/music"
    ));
    assert!(matches!(state.handle_key(key(KeyCode::Enter), Some(&file)), PickerAction::Nothing));
    assert!(matches!(
        state.handle_key(key(KeyCode::Char('n')), Some(&dir)),
        PickerAction::ExpandAndMoveDown
    ));
    assert!(state.creating_dir.is_some());
    assert!(matches!(state.handle_key(key(KeyCode::Esc), Some(&new)), PickerAction::Nothing));
    assert!(state.creating_dir.is_none());
    state.handle_key(key(KeyCode::Enter), Some(&new));
    for c in " new ".chars() {
        state.handle_key(key(KeyCode::Char(c)), Some(&new));
    }
    assert!(matches!(
        state.handle_key(key(KeyCode::Enter), Some(&new)),
        PickerAction::CreateDir(p) if p == "/music/new"
    ));
    assert_eq!(state.render_tree(&vec![dir, new], 1, 0, 9, Style::plain()).len(), 2);
    state.dir_created("/music/new");
    assert_eq!(state.status_message.as_deref(), Some("Created: /music/new"));
    assert!(state.creating_dir.is_none());
    state.dir_failed("full");
    assert_eq!(state.render_controls().spans[0].text, " Error: full");
}

#[test]
fn names_with_a_slash_make_no_directory() {
    let mut state = DirectoryPickerState::new();
    let new = entry("/music", false, true, false);
    state.handle_key(key(KeyCode::Enter), Some(&new));
    for c in "a/b".chars() {
        state.handle_key(key(KeyCode::Char(c)), Some(&new));
    }
    assert!(matches!(state.handle_key(key(KeyCode::Enter), Some(&new)), PickerAction::Nothing));
    assert!(state.creating_dir.is_none());
    assert!(matches!(state.handle_key(key(KeyCode::Esc), None), PickerAction::Cancelled));
    let line = render_picker_entry(&entry("d", true, false, true), false, Style::plain());
    assert_eq!(line.spans[0].text, "  ");
    assert_eq!(line.spans[1].text, "\u{25bc} ");
    assert_eq!(render_description().len(), 6);
    assert_eq!(render_db_setup("/db").len(), 10);
    assert_eq!(db_setup_key(key(KeyCode::Enter)), DbSetupAction::Create);
    assert_eq!(db_setup_key(key(KeyCode::Esc)), DbSetupAction::Cancelled);
    assert_eq!(db_setup_key(key(KeyCode::Tab)), DbSetupAction::Nothing);
}
