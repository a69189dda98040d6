use mm_ui::corpus::{AudioFile, AudioInfo, DecisionKey, DecisionSource, IndexEntry, Mutation, Zone};
use mm_ui::input::{InputAction, KeyCode, KeyEvent};
use mm_ui::tag_editor::directory_render::unsaved_changes_modal;
use mm_ui::tag_editor::directory_state::{
    aggregate_tags, discover_siblings, DirectoryTagEditorAction, DirectoryTagEditorState, FileEntry, GatheringMessage,
};
use mm_ui::tag_editor::mutations::{
    aggregate_tags_across_audio_files, changes_to_mutations, compute_changes, tags_to_fields,
};
use mm_ui::file_size::size_label;
use mm_ui::tag_editor::render::{duration_label, facts_label};
use mm_ui::tag_editor::state::UnifiedTagEditorState;
use mm_ui::tag_editor::types::{
    AggregatedValue, TagEditorButton, TagEditorSource, TagField, UnifiedTagEditorAction, UnifiedTagEditorFocus,
};

fn file(path: &str, inode: i64) -> AudioFile {
    AudioFile {
        entry: IndexEntry { path: path.to_string(), inode, zone: Zone::Corpus, file_size: 2048 },
        audio: AudioInfo {
            file_type: "flac".to_string(),
            duration_ms: Some(61000),
            bitrate_kbps: Some(900),
            sample_rate: None,
        },
    }
}

fn field(name: &str, value: &str) -> TagField {
    TagField { name: name.to_string(), value: value.to_string(), editable: true, deleted: false }
}

fn pair(a: &str, b: &str) -> (String, String) {
    (a.to_string(), b.to_string())
}

fn ops_of(mutations: &[Mutation]) -> Vec<(i64, String, Option<String>, Option<String>)> {
    let mut out = Vec::new();
    for m in mutations {
        if let Mutation::ApplyTagOps { ops } = m {
            for op in ops {
                out.push((
                    op.inode,
                    op.tag_name.clone(),
                    op.old_value.clone(),
                    op.new_value.clone(),
                ));
            }
        }
    }
    out
}

fn single() -> UnifiedTagEditorState {
    UnifiedTagEditorState::single_file(
        file("corpus/a/x.flac", 7),
        TagEditorSource::CorpusBrowser,
        None,
        vec![field("ARTIST", "Old"), field("TITLE", "T")],
    )
}

#[test]
fn an_untouched_editor_has_no_changes() {
    let editor = single();
    assert!(!editor.has_changes_for_current_item());
    assert!(editor.generate_mutations_for_current_item().is_empty());
    assert!(editor.collect_all_mutations().is_empty());
    assert_eq!(editor.selected_path(), Some("corpus/a/x.flac"));
    assert!(!editor.is_embedded());
    assert!(!editor.is_aggregated_mode());
}

#[test]
fn an_edited_value_is_added_and_the_old_one_dropped() {
    let mut editor = single();
    editor.tag_fields[0][0].value = "New".to_string();
    assert!(editor.has_changes_for_current_item());
    let ops = ops_of(&editor.generate_mutations_for_current_item());
    assert_eq!(
        ops,
        vec![
            (7, "ARTIST".to_string(), None, Some("New".to_string())),
            (7, "ARTIST".to_string(), Some("Old".to_string()), None),
        ]
    );
    let staged = editor.generate_mutations_for_current_item();
    editor.set_staged_mutations(staged);
    assert!(editor.changes_match_staged());
    editor.drop_changes_for_current_item();
    assert!(!editor.has_changes_for_current_item());
}

#[test]
fn a_field_marked_deleted_is_dropped() {
    let original = vec![vec![field("ARTIST", "Old"), field("TITLE", "T")]];
    let mut current = vec![vec![field("ARTIST", "Old"), field("TITLE", "T")]];
    current[0][0].deleted = true;
    let changes = compute_changes(&original, &current);
    assert_eq!(changes.len(), 1);
    assert_eq!(changes[0].old_value, "Old");
    assert_eq!(changes[0].new_value, "");
    let mutations = changes_to_mutations(&changes, &vec![file("a", 3)]);
    let ops = ops_of(&mutations);
    assert_eq!(ops.len(), 1);
    assert_eq!(ops[0].2.as_deref(), Some("Old"));
    assert_eq!(ops[0].3, None);
}

#[test]
fn typing_into_a_field_is_an_edit() {
    let mut editor = single();
    assert_eq!(editor.focus, UnifiedTagEditorFocus::TagFields);
    editor.handle_input(&InputAction::Confirm);
    editor.handle_input(&InputAction::Char('!'));
    editor.handle_input(&InputAction::Confirm);
    assert!(editor.item_has_changes(0));
    assert_eq!(editor.original_tag_fields[0][0].value, "Old");
}

#[test]
fn embedded_editors_keep_their_key() {
    let editor = single().with_embedded_mode(
        DecisionKey::new(DecisionSource::TagCanonicity, "k".to_string()),
        "label".to_string(),
    );
    assert!(editor.is_embedded());
    assert!(!editor.available_buttons().is_empty());
    assert!(single().available_buttons().contains(&TagEditorButton::ReviewAll));
}

#[test]
fn values_on_which_files_differ_are_various() {
    let fields = aggregate_tags_across_audio_files(&vec![
        vec![field("ARTIST", "A"), field("ALBUM", "X")],
        vec![field("ARTIST", "A"), field("ALBUM", "Y")],
    ]);
    for f in &fields {
        if f.name.eq_ignore_ascii_case("artist") {
            assert!(matches!(&f.value, AggregatedValue::Consistent(v) if v == "A"));
        }
        if f.name.eq_ignore_ascii_case("album") {
            assert!(matches!(&f.value, AggregatedValue::Various));
        }
    }
    assert_eq!(fields.len(), 3);
    assert_eq!(fields[0].name, "ALBUM");
    assert_eq!(fields[2].name, "New Tag");
}

#[test]
fn filling_from_disk_takes_the_tags() {
    let mut editor = single();
    let action = editor.fill_from_disk(Some(vec![pair("artist", "Disk")]));
    assert!(matches!(action, UnifiedTagEditorAction::StatusMessage(_)));
    assert!(editor.tag_fields[0].iter().any(|f| f.value == "Disk"));
    assert!(!editor.has_changes_for_current_item());
    editor.fill_from_db_result(vec![pair("artist", "Index")]);
    assert!(editor.tag_fields[0].iter().any(|f| f.value == "Index"));
}

#[test]
fn facts_about_a_file() {
    assert_eq!(size_label(10), "10 B");
    assert_eq!(size_label(-3), "-3 B");
    assert_eq!(size_label(4096), "4.0 KB");
    assert_eq!(size_label(5_000_000), "4.77 MB");
    assert_eq!(duration_label(Some(61000)), "1:01");
    let facts = facts_label("flac", 2048, Some(61000), Some(900), None);
    assert!(facts.contains("2.0 KB"));
    assert!(facts.contains("1:01"));
    assert!(facts.contains("900"));
    let editor = single();
    assert!(editor.info_pane().is_some());
    assert!(editor.modal_pane().is_none());
    assert!(!editor.action_panel().lines.is_empty());
}

#[test]
fn fields_come_from_tags() {
    let fields = tags_to_fields(vec![pair("TITLE", "t"), pair("ARTIST", "a")]);
    assert_eq!(fields.len(), 2);
    assert!(fields.iter().all(|f| f.editable && !f.deleted));
}

fn key(code: KeyCode) -> KeyEvent {
    KeyEvent { code, control: false, shift: false }
}

fn directory() -> DirectoryTagEditorState {
    let mut editor = DirectoryTagEditorState::start_gathering(
        "/m/b".to_string(),
        vec!["/m/a".to_string(), "/m/b".to_string(), "/m/c".to_string()],
    );
    assert!(editor.is_gathering());
    let done = editor.poll_gathering(vec![
        GatheringMessage::TotalFiles(2),
        GatheringMessage::Processing(0, "1.flac".to_string()),
        GatheringMessage::FileProcessed {
            index: 0,
            path: "/m/b/1.flac".to_string(),
            tags: vec![pair("ARTIST", "A"), pair("GENRE", "x")],
        },
        GatheringMessage::FileProcessed {
            index: 1,
            path: "/m/b/2.flac".to_string(),
            tags: vec![pair("ARTIST", "A"), pair("GENRE", "y")],
        },
        GatheringMessage::Complete,
    ]);
    assert!(done);
    editor
}

#[test]
fn a_directory_is_gathered_and_left() {
    let mut editor = directory();
    assert!(!editor.is_gathering());
    assert_eq!(editor.files.len(), 2);
    assert!(!editor.has_changes());
    assert!(editor.compute_changes().is_empty());
    assert_eq!(editor.switch_to_sibling(true).as_deref(), Some("/m/c"));
    assert_eq!(editor.switch_to_sibling(false).as_deref(), Some("/m/a"));
    assert!(matches!(editor.handle_key(key(KeyCode::Esc)), DirectoryTagEditorAction::Exit));
    assert!(editor.gathering_popup().is_none());
    assert_eq!(editor.file_list(10).lines.len(), 2);
    assert!(!editor.directory_info().lines.is_empty());
    assert!(!unsaved_changes_modal(true).lines.is_empty());
}

#[test]
fn siblings_are_the_directories_in_order() {
    let entries = vec![
        ("/m/c".to_string(), true),
        ("/m/x.flac".to_string(), false),
        ("/m/.git".to_string(), true),
        ("/m/a".to_string(), true),
    ];
    assert_eq!(discover_siblings("/", &entries), vec!["/".to_string()]);
    assert_eq!(discover_siblings("", &entries), vec!["".to_string()]);
    let found = discover_siblings("/m/c/", &entries);
    assert_eq!(found, vec!["/m/a".to_string(), "/m/c".to_string()]);
}

#[test]
fn tags_of_a_directory_are_aggregated() {
    let entry = |n: &str, tags: Vec<(String, String)>| FileEntry {
        path: format!("/m/{}", n),
        filename: n.to_string(),
        tags,
    };
    let fields = aggregate_tags(&vec![
        entry("1", vec![pair("ARTIST", "A")]),
        entry("2", vec![pair("ARTIST", "A")]),
    ]);
    assert!(fields
        .iter()
        .any(|f| matches!(&f.value, AggregatedValue::Consistent(v) if v == "A")));
}

#[test]
fn typing_into_a_directory_field_counts_the_files() {
    let mut editor = directory();
    let at = editor
        .aggregated_fields
        .iter()
        .position(|f| matches!(&f.value, AggregatedValue::Consistent(v) if v == "A"))
        .unwrap();
    for _ in 0..at {
        editor.move_down();
    }
    editor.handle_enter();
    editor.insert_char('!');
    editor.commit_current_buffer();
    assert!(editor.has_changes());
    let changes = editor.compute_changes();
    assert_eq!(changes.len(), 1);
    assert_eq!(changes[0].new_value, "A!");
    assert_eq!(changes[0].affected_files, 2);
}

#[test]
fn carrying_changes_out_gives_the_edited_values() {
    let original = vec![vec![field("ARTIST", "A"), field("artist", "B"), field("TITLE", "T")]];
    let mut current = vec![vec![field("ARTIST", "A"), field("artist", "C"), field("TITLE", "T")]];
    current[0][2].deleted = true;
    let changes = compute_changes(&original, &current);
    let mut values: Vec<(String, String)> =
        original[0].iter().map(|f| (f.name.to_lowercase(), f.value.clone())).collect();
    for c in &changes {
        let name = c.field_name.to_lowercase();
        if c.new_value.is_empty() {
            values.retain(|v| *v != (name.clone(), c.old_value.clone()));
        } else if c.old_value.is_empty() {
            values.push((name, c.new_value.clone()));
        }
    }
    assert_eq!(values, vec![pair("artist", "A"), pair("artist", "C")]);
}

#[test]
fn several_files_are_edited_one_by_one_or_as_one() {
    let files = || vec![file("corpus/d/1.flac", 1), file("corpus/d/2.flac", 2)];
    let fields = || vec![vec![field("ARTIST", "A")], vec![field("ARTIST", "B")]];
    let bulk = UnifiedTagEditorState::bulk_from_audio_files(
        files(),
        TagEditorSource::CorpusBrowser,
        None,
        fields(),
    );
    assert_eq!(bulk.total_items, 2);
    assert!(!bulk.is_aggregated_mode());
    assert!(!bulk.current_item_label().is_empty());
    let one = UnifiedTagEditorState::aggregated_bulk(files(), TagEditorSource::TagSearch, fields());
    assert!(one.is_aggregated_mode());
    assert!(one.aggregated_fields.is_some());
    let directory = UnifiedTagEditorState::directory_aggregated(files(), fields());
    assert!(directory.is_aggregated_mode());
}

#[test]
fn gathered_files_stand_in_the_order_of_components() {
    let gather = |paths: &[&str]| {
        let mut editor = DirectoryTagEditorState::start_gathering("a".to_string(), Vec::new());
        let mut news: Vec<GatheringMessage> = paths
            .iter()
            .enumerate()
            .map(|(index, p)| GatheringMessage::FileProcessed {
                index,
                path: p.to_string(),
                tags: Vec::new(),
            })
            .collect();
        news.push(GatheringMessage::FileError {
            index: 9,
            path: "bad".to_string(),
            error: "no".to_string(),
        });
        assert!(!editor.poll_gathering(Vec::new()));
        news.push(GatheringMessage::Complete);
        news.push(GatheringMessage::TotalFiles(7));
        assert!(editor.poll_gathering(news));
        assert!(editor.poll_gathering(vec![GatheringMessage::TotalFiles(7)]));
        editor.files.iter().map(|f| f.path.clone()).collect::<Vec<String>>()
    };
    assert_eq!(gather(&["a/b", "a//c"]), vec!["a/b", "a//c"]);
    assert_eq!(gather(&["a//c", "a/b"]), vec!["a/b", "a//c"]);
    assert_eq!(gather(&["!a", "../x"]), vec!["../x", "!a"]);
    assert_eq!(gather(&["a b/x", "a/x"]), vec!["a/x", "a b/x"]);
}

#[test]
fn a_slash_at_the_end_is_the_same_directory() {
    let siblings = || vec!["/m/a".to_string(), "/m/b".to_string(), "/m/c".to_string()];
    let editor = DirectoryTagEditorState::start_gathering("/m/b/".to_string(), siblings());
    assert_eq!(editor.current_sibling_idx, 1);
    assert_eq!(editor.switch_to_sibling(true).as_deref(), Some("/m/c"));
    let editor = DirectoryTagEditorState::start_gathering("/m//./c".to_string(), siblings());
    assert_eq!(editor.current_sibling_idx, 2);
}

#[test]
fn siblings_from_behind_the_last() {
    let mut editor = directory();
    let n = editor.sibling_directories.len();
    editor.current_sibling_idx = n;
    assert_eq!(editor.switch_to_sibling(true), None);
    assert_eq!(editor.switch_to_sibling(false), editor.sibling_directories.last().cloned());
    editor.current_sibling_idx = n + 5;
    assert_eq!(editor.switch_to_sibling(true), None);
    editor.sibling_directories.clear();
    assert_eq!(editor.switch_to_sibling(false), None);
}

#[test]
fn another_order_of_fields_is_no_change() {
    let original = vec![vec![field("GENRE", "x"), field("ARTIST", "a"), field("genre", "y")]];
    let current = vec![vec![field("genre", "y"), field("GENRE", "x"), field("ARTIST", "a")]];
    assert!(compute_changes(&original, &current).is_empty());
    let mut marked = vec![vec![field("genre", "y"), field("GENRE", "x"), field("ARTIST", "a")]];
    marked[0][0].deleted = true;
    assert_eq!(compute_changes(&original, &marked).len(), 1);
}
