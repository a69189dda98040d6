use std::collections::HashMap;

use mm_ui::corpus::Mutation;
use mm_ui::input::{InputAction, KeyCode, KeyEvent};
use mm_ui::tag_canonicity::data::{
    AggregateSignal, AggregateSignalType, AlbumArtistIssue, TagCanonicalityModalData, TagCollision,
};
use mm_ui::tag_canonicity::input::TagCanonicalityAction;
use mm_ui::tag_canonicity::review::{
    DecisionSummary, ReviewButtonFocus, TagCanonicityReviewAction, TagCanonicityReviewState,
};
use mm_ui::tag_canonicity::state::{TagCanonicalityState, TrackInfo};
use mm_ui::tag_canonicity_v2::input::TagCanonicalityActionV2;
use mm_ui::tag_canonicity_v2::types::{
    FocusPaneV2, InconsistentAlbumArtistSignal, LoadedFile, TagCanonicalityModalDataV2, TagCanonicalityStateV2, TagCanonicitySignal,
};

fn key(code: KeyCode) -> KeyEvent {
    KeyEvent { code, control: false, shift: false }
}

fn pair(a: &str, b: &str) -> (String, String) {
    (a.to_string(), b.to_string())
}

fn counts(v: &[(&str, usize)]) -> Vec<(String, usize)> {
    v.iter().map(|(s, n)| (s.to_string(), *n)).collect()
}

fn collision() -> TagCanonicalityModalData {
    let mut data = TagCanonicalityModalData::from_collision(&TagCollision {
        tag_name: "artist".to_string(),
        variant_counts: counts(&[("Riot ", 1), ("beta", 3), ("RIOT", 5), ("alpha", 3)]),
    });
    data.track_ids = vec![1, 2, 3, 4];
    data
}

#[test]
fn variants_stand_commonest_first() {
    let data = collision();
    let values: Vec<&str> = data.variants.iter().map(|v| v.value.as_str()).collect();
    assert_eq!(values, vec!["RIOT", "alpha", "beta", "Riot "]);
    assert_eq!(data.default_canonical(), "RIOT");
    assert_eq!(data.context_label, None);
}

#[test]
fn album_artist_issue_names_its_album() {
    let data = TagCanonicalityModalData::from_album_artist_issue(&AlbumArtistIssue {
        album: "Clockwork Hearts".to_string(),
        artist_variants: Vec::new(),
        track_ids: vec![9],
    });
    assert_eq!(data.tag_name, "album_artist");
    assert_eq!(data.context_label.as_deref(), Some("Album: Clockwork Hearts"));
    assert_eq!(data.default_canonical(), "");
    assert_eq!(data.track_ids, vec![9]);
}

fn signal(signal_type: AggregateSignalType, json: &str) -> Option<TagCanonicalityModalData> {
    TagCanonicalityModalData::from_signal(&AggregateSignal {
        signal_type,
        metadata_json: Some(json.to_string()),
    })
}

#[test]
fn signal_on_a_tag_is_read() {
    let data = signal(
        AggregateSignalType::TagCanonicity,
        r#"{"tag_name":"genre","variants":{"Rock":2,"rock":2,"bad":-1,"none":"x","f":1.5},"track_ids":[1,"a",-2,9223372036854775808],"context":"here"}"#,
    )
    .unwrap();
    assert_eq!(data.tag_name, "genre");
    assert_eq!(data.context_label.as_deref(), Some("here"));
    let variants: Vec<(&str, usize)> =
        data.variants.iter().map(|v| (v.value.as_str(), v.count)).collect();
    assert_eq!(variants, vec![("Rock", 2), ("rock", 2)]);
    assert_eq!(data.track_ids, vec![1, -2]);
}

#[test]
fn signal_on_an_album_artist_is_read() {
    let data = signal(
        AggregateSignalType::InconsistentAlbumArtist,
        r#"{"album":"A","album_artist_variants":{"x":1,"y":4}}"#,
    )
    .unwrap();
    assert_eq!(data.tag_name, "album_artist");
    assert_eq!(data.context_label.as_deref(), Some("A"));
    assert_eq!(data.variants[0].value, "y");
    assert!(data.track_ids.is_empty());
}

#[test]
fn signal_without_what_is_needed_is_refused() {
    let tag = AggregateSignalType::TagCanonicity;
    assert!(signal(tag, "not json").is_none());
    assert!(signal(tag, "[]").is_none());
    assert!(signal(tag, r#"{"tag_name":"a"}"#).is_none());
    assert!(signal(tag, r#"{"tag_name":3,"variants":{}}"#).is_none());
    assert!(signal(tag, r#"{"tag_name":"a","variants":[]}"#).is_none());
    assert!(signal(AggregateSignalType::InconsistentAlbumArtist, r#"{"variants":{}}"#).is_none());
    assert!(TagCanonicalityModalData::from_signal(&AggregateSignal {
        signal_type: tag,
        metadata_json: None,
    })
    .is_none());
}

#[test]
fn squashing_replaces_once_and_keeps_the_rest() {
    let mut state = TagCanonicalityState::new(collision(), true, 0, 1);
    assert_eq!(state.canonical_value(), "RIOT");
    state.cursor = 3;
    assert!(state.is_on_last_item());
    let mut info: HashMap<i64, TrackInfo> = HashMap::new();
    info.insert(
        1,
        TrackInfo {
            path: "/a".to_string(),
            tags: vec![pair("title", "t"), pair("ARTIST", "Riot "), pair("artist", "alpha"), pair("artist", "other")],
        },
    );
    info.insert(
        2,
        TrackInfo { path: "/b".to_string(), tags: vec![pair("artist", "RIOT")] },
    );
    let mutations = state.mutations_with_paths(&info);
    assert_eq!(mutations.len(), 2);
    match (&mutations[0], &mutations[1]) {
        (
            Mutation::SetTrackTagsDb { track_id, tags },
            Mutation::FlushTagsToDisk { track_id: flushed, path },
        ) => {
            assert_eq!(*track_id, 1);
            assert_eq!(*flushed, 1);
            assert_eq!(path, "/a");
            assert_eq!(
                tags,
                &vec![pair("title", "t"), pair("ARTIST", "RIOT"), pair("artist", "other")]
            );
        }
        _ => panic!(),
    }
    state.toggle_selection();
    assert_eq!(
        state.selected_variants(),
        vec!["RIOT".to_string(), "alpha".to_string(), "beta".to_string()]
    );
    assert_eq!(state.mutations_with_paths(&info).len(), 2);
}

#[test]
fn keys_of_the_modal() {
    let mut state = TagCanonicalityState::new(collision(), false, 1, 3);
    assert_eq!(state.handle_key(key(KeyCode::Enter)), TagCanonicalityAction::Nothing);
    state.handle_key(key(KeyCode::Up));
    assert!(state.is_on_text_field());
    assert!(state.canonical_input.focused);
    state.handle_key(key(KeyCode::Char('x')));
    assert_eq!(state.canonical_value(), "x");
    assert_eq!(state.handle_key(key(KeyCode::Enter)), TagCanonicalityAction::Confirmed);
    state.handle_key(key(KeyCode::Down));
    assert!(state.is_on_first_item());
    state.handle_key(key(KeyCode::Char(' ')));
    assert!(!state.selected.contains(&0));
    state.handle_key(key(KeyCode::Char(' ')));
    assert!(state.selected.contains(&0));
    assert_eq!(
        state.handle_key(key(KeyCode::Tab)),
        TagCanonicalityAction::Navigate { forward: true }
    );
    assert_eq!(
        state.handle_key(KeyEvent { code: KeyCode::Tab, control: false, shift: true }),
        TagCanonicalityAction::Navigate { forward: false }
    );
    assert_eq!(
        state.handle_key(KeyEvent { code: KeyCode::Char('r'), control: true, shift: false }),
        TagCanonicalityAction::ShowReview
    );
    assert_eq!(state.handle_key(key(KeyCode::Esc)), TagCanonicalityAction::Cancelled);
    assert_eq!(state.render_title(), " Squash \"artist\" variants (2/3) ");
    assert_eq!(state.render_variants_list().lines.len(), 4);
    assert_eq!(state.render_canonical_input().title, " Album artist: ");
}

#[test]
fn review_buttons_stop_at_the_ends() {
    let mut state = TagCanonicityReviewState {
        decisions: vec![
            DecisionSummary { tag_name: "a".to_string(), canonical_value: "b".to_string() },
            DecisionSummary { tag_name: "c".to_string(), canonical_value: "d".to_string() },
        ],
        cursor: 0,
        button_focus: ReviewButtonFocus::Cancel,
    };
    state.handle_key(key(KeyCode::Left));
    assert_eq!(state.button_focus, ReviewButtonFocus::Cancel);
    assert_eq!(state.handle_key(key(KeyCode::Enter)), TagCanonicityReviewAction::Cancel);
    state.handle_key(key(KeyCode::Tab));
    assert_eq!(state.handle_key(key(KeyCode::Enter)), TagCanonicityReviewAction::Discard);
    state.handle_key(key(KeyCode::Right));
    state.handle_key(key(KeyCode::Right));
    assert_eq!(state.handle_key(key(KeyCode::Enter)), TagCanonicityReviewAction::Confirm);
    state.handle_key(key(KeyCode::Down));
    state.handle_key(key(KeyCode::Down));
    assert_eq!(state.cursor, 1);
    assert_eq!(state.handle_key(key(KeyCode::Char('Y'))), TagCanonicityReviewAction::Confirm);
    assert_eq!(state.handle_key(key(KeyCode::Char('d'))), TagCanonicityReviewAction::Discard);
}

fn data_v2() -> TagCanonicalityModalDataV2 {
    TagCanonicalityModalDataV2::from_tag_canonicity(
        &TagCanonicitySignal {
            tag_name: "artist".to_string(),
            variants: counts(&[("RIOT ", 1), ("RIOT", 2), ("", 1)]),
            inodes: vec![10, 11, 12, 13],
        },
        vec![
            LoadedFile {
                inode: 11,
                path: "corpus/b/z.flac".to_string(),
                tags: Some(vec![pair("Artist", "RIOT "), pair("artist", "RIOT")]),
            },
            LoadedFile {
                inode: 10,
                path: "corpus/b/a.flac".to_string(),
                tags: Some(vec![pair("artist", "RIOT "), pair("album", "x")]),
            },
            LoadedFile { inode: 12, path: "corpus/c.flac".to_string(), tags: Some(Vec::new()) },
        ],
    )
    .unwrap()
}

#[test]
fn files_stand_in_the_order_of_their_names() {
    let data = data_v2();
    let names: Vec<&str> = data.files.iter().map(|f| f.filename.as_str()).collect();
    assert_eq!(names, vec!["a.flac", "c.flac", "z.flac"]);
    let state = TagCanonicalityStateV2::new(data, true, 0, 1);
    assert_eq!(state.selected_path(), Some("corpus/b/a.flac"));
    assert_eq!(state.render_title(), " Squash \"artist\" variants (1/1) ");
    assert_eq!(state.render_tags_pane(40, 10).lines.len(), 2);
    assert_eq!(state.render_files_pane(40, 2).lines.len(), 2);
    assert_eq!(state.render_variants_pane(40, 10).title, " VALUES (3/3) ");
}

#[test]
fn one_mutation_replaces_drops_and_adds() {
    let state = TagCanonicalityStateV2::new(data_v2(), true, 0, 1);
    assert_eq!(state.canonical_input.value(), "RIOT");
    let mutations = state.mutations();
    assert_eq!(mutations.len(), 1);
    match &mutations[0] {
        Mutation::ApplyTagOps { ops } => {
            assert_eq!(ops.len(), 3);
            assert_eq!(ops[0].inode, 10);
            assert_eq!(ops[0].old_value.as_deref(), Some("RIOT "));
            assert_eq!(ops[0].new_value.as_deref(), Some("RIOT"));
            assert_eq!(ops[1].inode, 11);
            assert_eq!(ops[1].old_value.as_deref(), Some("RIOT "));
            assert_eq!(ops[1].new_value, None);
            assert_eq!(ops[2].inode, 12);
            assert_eq!(ops[2].old_value, None);
            assert_eq!(ops[2].new_value.as_deref(), Some("RIOT"));
        }
        _ => panic!(),
    }
    let mut again = TagCanonicalityStateV2::new(data_v2(), false, 0, 1);
    again.restore_from_mutations(&mutations);
    assert_eq!(again.canonical_input.value(), "RIOT");
    assert!(again.pre_filled);
    assert_eq!(again.selected_variant_values(), vec!["RIOT ".to_string()]);
}

#[test]
fn files_that_cannot_be_read_are_left_alone() {
    let data = TagCanonicalityModalDataV2::from_tag_canonicity(
        &TagCanonicitySignal {
            tag_name: "artist".to_string(),
            variants: counts(&[("RIOT", 4), ("", 3)]),
            inodes: vec![1, 2, 3],
        },
        vec![
            LoadedFile { inode: 1, path: "a.flac".to_string(), tags: None },
            LoadedFile { inode: 2, path: "b.flac".to_string(), tags: Some(Vec::new()) },
            LoadedFile { inode: 3, path: "c.flac".to_string(), tags: Some(Vec::new()) },
            LoadedFile { inode: 3, path: "d.flac".to_string(), tags: None },
        ],
    )
    .unwrap();
    assert_eq!(data.files.len(), 4);
    assert!(!data.files[0].readable);
    assert!(data.files[0].tag_values.is_empty());
    let state = TagCanonicalityStateV2::new(data, true, 0, 1);
    match &state.mutations()[0] {
        Mutation::ApplyTagOps { ops } => {
            let inodes: Vec<i64> = ops.iter().map(|op| op.inode).collect();
            assert_eq!(inodes, vec![2, 3]);
        }
        _ => panic!(),
    }
}

#[test]
fn input_of_the_three_panes() {
    let data = TagCanonicalityModalDataV2::from_inconsistent_album_artist(
        &InconsistentAlbumArtistSignal {
            album: "A".to_string(),
            album_artist_variants: counts(&[("x", 1)]),
            inodes: vec![1],
        },
        vec![LoadedFile { inode: 1, path: "p".to_string(), tags: Some(Vec::new()) }],
    )
    .unwrap();
    let mut state = TagCanonicalityStateV2::new(data, false, 0, 1);
    assert_eq!(state.handle_input(&InputAction::Confirm), TagCanonicalityActionV2::Nothing);
    state.handle_input(&InputAction::Char('f'));
    assert_eq!(state.handle_input(&InputAction::Confirm), TagCanonicalityActionV2::Confirmed);
    state.handle_input(&InputAction::NavRight);
    assert_eq!(state.focus_pane, FocusPaneV2::Files);
    assert_eq!(
        state.handle_input(&InputAction::Char('t')),
        TagCanonicalityActionV2::OpenTagEditorIndividual
    );
    assert_eq!(
        state.handle_input(&InputAction::Char('T')),
        TagCanonicalityActionV2::OpenTagEditorAggregated
    );
    state.handle_input(&InputAction::Char('e'));
    assert_eq!(state.variant_cursor, -1);
    state.handle_input(&InputAction::Char('t'));
    assert_eq!(state.canonical_input.value(), "xt");
    assert_eq!(
        state.handle_input(&InputAction::CycleNext),
        TagCanonicalityActionV2::Navigate { forward: true }
    );
    state.handle_input(&InputAction::FlagValue);
    assert_eq!(
        state.handle_input(&InputAction::CycleNext),
        TagCanonicalityActionV2::Nothing
    );
    assert_eq!(
        state.handle_input(&InputAction::Confirm),
        TagCanonicalityActionV2::FlagNonCompilation
    );
    assert_eq!(
        state.handle_input(&InputAction::Shortcut('r')),
        TagCanonicalityActionV2::ShowReview
    );
    assert_eq!(state.handle_input(&InputAction::Cancel), TagCanonicalityActionV2::Cancelled);
}
