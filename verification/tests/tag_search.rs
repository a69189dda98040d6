use mm_ui::corpus::{AudioFile, AudioInfo, IndexEntry, Zone};
use mm_ui::input::InputAction;
use mm_ui::tag_search::evaluate::{
    evaluate_conditions, evaluate_single_condition, match_like_pattern, parse_number, AudioFileWithTags,
};
use mm_ui::tag_search::render::render_condition_row;
use mm_ui::tag_search::state::TagSearchState;
use mm_ui::tag_search::types::{
    ComparisonOperator, ConditionType, FileFormat, FileTypeCategory, LogicalOperator, QueryFieldFocus, SearchCondition, TagSearchAction, TagSearchModal, TagSearchMode,
};

fn file(path: &str, file_type: &str, kbps: Option<i32>, artist: &str) -> AudioFileWithTags {
    AudioFileWithTags {
        audio_file: AudioFile {
            entry: IndexEntry {
                path: path.to_string(),
                inode: 1,
                zone: Zone::Corpus,
                file_size: 1,
            },
            audio: AudioInfo {
                file_type: file_type.to_string(),
                duration_ms: Some(180000),
                bitrate_kbps: kbps,
                sample_rate: Some(44100),
            },
        },
        tags: vec![("artist".to_string(), artist.to_string())],
    }
}

fn artist_condition(comparison: ComparisonOperator, value: &str) -> SearchCondition {
    let mut c = SearchCondition::new();
    c.tag_name.insert_str("artist");
    c.comparison = comparison;
    c.value.insert_str(value);
    c
}

#[test]
fn tags_are_compared() {
    let f = file("a", "flac", None, "Daft Punk");
    assert_eq!(f.get_tag("ARTIST"), Some("Daft Punk"));
    assert!(evaluate_single_condition(&f, &artist_condition(ComparisonOperator::Is, "daft punk")));
    assert!(!evaluate_single_condition(&f, &artist_condition(ComparisonOperator::Is, "daft")));
    assert!(evaluate_single_condition(&f, &artist_condition(ComparisonOperator::Not, "daft")));
    assert!(evaluate_single_condition(&f, &artist_condition(ComparisonOperator::Contains, "T P")));
    assert!(evaluate_single_condition(&f, &artist_condition(ComparisonOperator::Like, "daf%p_nk")));
}

#[test]
fn patterns_have_wildcards() {
    assert!(match_like_pattern("abc", "%"));
    assert!(match_like_pattern("", "%"));
    assert!(match_like_pattern("abc", "a_c"));
    assert!(!match_like_pattern("abc", "a_"));
    assert!(match_like_pattern("aXbXc", "a%b%c"));
    assert!(!match_like_pattern("abd", "a%c"));
    assert_eq!(parse_number("44100"), Some(44100));
    assert_eq!(parse_number(""), None);
    assert_eq!(parse_number("x"), None);
}

#[test]
fn conditions_are_joined_from_left_to_right() {
    let f = file("a", "mp3", Some(320), "X");
    let mut rate = SearchCondition::new();
    rate.condition_type = ConditionType::Bitrate;
    rate.range_min.insert_str("300");
    rate.operator = LogicalOperator::And;
    let mut kind = SearchCondition::new();
    kind.condition_type = ConditionType::FileType;
    kind.file_type_category = FileTypeCategory::Lossless;
    kind.operator = LogicalOperator::Xor;
    let is = artist_condition(ComparisonOperator::Is, "x");
    assert!(evaluate_conditions(&f, &vec![is, rate, kind]));
    let f = file("a", "mp3", Some(192), "X");
    let mut rate = SearchCondition::new();
    rate.condition_type = ConditionType::Bitrate;
    rate.range_min.insert_str("300");
    assert!(!evaluate_single_condition(&f, &rate));
}

#[test]
fn types_come_round() {
    let mut c = FileTypeCategory::Any;
    for _ in 0..9 {
        let next = c.next();
        assert_eq!(next.prev(), c);
        c = next;
    }
    assert_eq!(c, FileTypeCategory::Any);
    assert_eq!(FileFormat::Aac.next(), FileFormat::Flac);
    assert!(FileTypeCategory::Lossy.matches("M4A"));
    assert!(!FileTypeCategory::Lossless.matches("mp3"));
    assert_eq!(ComparisonOperator::Like.next(), ComparisonOperator::Is);
    assert_eq!(ConditionType::Duration.next(), ConditionType::Tag);
    assert_eq!(LogicalOperator::And.next().label(), "OR");
}

fn press(state: &mut TagSearchState, action: InputAction) -> TagSearchAction {
    state.handle_input(&action)
}

#[test]
fn searching_finds_in_the_order_of_paths() {
    let mut state = TagSearchState::new();
    for c in "ar".chars() {
        press(&mut state, InputAction::Char(c));
    }
    assert!(matches!(press(&mut state, InputAction::CycleNext), TagSearchAction::Nothing));
    assert_eq!(state.conditions[0].tag_name.value(), "artist");
    press(&mut state, InputAction::NavRight);
    assert!(state.is_on_comparison_field());
    press(&mut state, InputAction::NavRight);
    press(&mut state, InputAction::Paste("x".to_string()));
    press(&mut state, InputAction::NavDown);
    assert!(state.is_on_add_condition());
    press(&mut state, InputAction::NavDown);
    assert!(matches!(press(&mut state, InputAction::Confirm), TagSearchAction::ExecuteSearch));
    state.execute_search(vec![
        file("corpus/b", "flac", None, "X"),
        file("corpus/a", "flac", None, "x"),
        file("corpus/c", "flac", None, "y"),
    ]);
    assert_eq!(state.mode, TagSearchMode::Results);
    assert_eq!(state.results.len(), 2);
    assert_eq!(state.render_results().lines[0].spans[0].text, "▶ a");
    assert_eq!(state.render_results().title, "Results (2 tracks)");
    press(&mut state, InputAction::NavDown);
    press(&mut state, InputAction::NavDown);
    assert!(matches!(
        press(&mut state, InputAction::Confirm),
        TagSearchAction::EditAudioFile(f) if f.entry.path == "corpus/b"
    ));
    press(&mut state, InputAction::Char('b'));
    assert_eq!(state.modal, Some(TagSearchModal::GatheringTags));
    press(&mut state, InputAction::Cancel);
    assert_eq!(state.modal, Some(TagSearchModal::GatheringTags));
    assert!(state.render_modal().is_some());
    assert_eq!(state.take_pending_bulk_edit().unwrap().len(), 2);
    assert_eq!(state.modal, None);
    assert!(state.take_pending_bulk_edit().is_none());
    press(&mut state, InputAction::ConfirmAll);
    assert_eq!(state.modal, Some(TagSearchModal::GatheringTags));
    state.take_pending_bulk_edit();
    press(&mut state, InputAction::Cancel);
    assert_eq!(state.mode, TagSearchMode::QueryBuilder);
}

#[test]
fn finding_nothing_says_so() {
    let mut state = TagSearchState::new();
    state.execute_search(Vec::new());
    assert_eq!(state.modal, Some(TagSearchModal::NoResults));
    assert_eq!(state.mode, TagSearchMode::QueryBuilder);
    press(&mut state, InputAction::NavDown);
    assert_eq!(state.modal, Some(TagSearchModal::NoResults));
    press(&mut state, InputAction::Confirm);
    assert_eq!(state.modal, None);
    assert!(matches!(press(&mut state, InputAction::Cancel), TagSearchAction::Cancel));
}

#[test]
fn ranges_take_digits_alone() {
    let mut state = TagSearchState::new();
    press(&mut state, InputAction::NavLeft);
    press(&mut state, InputAction::Confirm);
    press(&mut state, InputAction::Confirm);
    assert_eq!(state.conditions[0].condition_type, ConditionType::SampleRate);
    press(&mut state, InputAction::NavRight);
    assert_eq!(state.field_focus, QueryFieldFocus::RangeMin);
    press(&mut state, InputAction::Paste("4x4,1".to_string()));
    press(&mut state, InputAction::Char('a'));
    assert_eq!(state.conditions[0].range_min.value(), "441");
    press(&mut state, InputAction::Backspace);
    assert_eq!(state.conditions[0].range_min.value(), "44");
    state.add_condition();
    assert_eq!(state.focused_condition, 1);
    press(&mut state, InputAction::NavLeft);
    press(&mut state, InputAction::NavLeft);
    assert!(state.is_on_operator_field());
    press(&mut state, InputAction::Confirm);
    assert_eq!(state.conditions[1].operator, LogicalOperator::Or);
    press(&mut state, InputAction::NavUp);
    assert_eq!(state.focused_condition, 0);
    let row = render_condition_row(&state.conditions[0], true, None);
    assert_eq!(row.spans[1].text, "[RATE]");
    assert_eq!(row.spans[3].text, "44      ");
    assert_eq!(row.spans[6].text, " Hz");
    let lines = state.render_query_builder(40, 20);
    assert_eq!(lines.len(), 4);
    assert_eq!((lines[2].x, lines[2].y), (2, 4));
    assert_eq!((lines[3].x, lines[3].y), (14, 6));
}
