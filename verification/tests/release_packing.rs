use mm_ui::input::InputAction;
use mm_ui::release_packing::state::{ReleasePackingBrowserAction, ReleasePackingBrowserState};
use mm_ui::release_packing::controls::{pin_controls, Control, ControlKind};
use mm_ui::release_packing::render::{coverage_color, release_overview};
use mm_ui::screen::{Color, Rect};
use mm_ui::single::share_of;
use mm_ui::release_packing::types::{
    FocusedPane, PackedReleaseData, PackingCategory, PackingRow, PackingScoreBreakdown, ScoreValue, UnfilledReleaseSlotData, UnmatchedCorpusTrackData, UnmatchedEntry,
};

fn score() -> ScoreValue {
    ScoreValue { text: "0.90".to_string(), bar: 9 }
}

fn row(path: &str, release: &str, medium: u32, position: u32) -> PackingRow {
    PackingRow {
        path: path.to_string(),
        release_id: release.to_string(),
        track_number: position.to_string(),
        track_title: format!("t{}", position),
        medium_position: medium,
        track_position: position,
        medium_format: None,
        recording_id: "rec".to_string(),
        score: ("0.9".to_string(), "0.90".to_string()),
        score_breakdown: PackingScoreBreakdown {
            acoustid_confidence: score(),
            duration_match: score(),
            title_match: score(),
            artist_match: score(),
            album_match: score(),
            track_number_match: score(),
        },
        alternatives_count: 0,
    }
}

fn browser() -> ReleasePackingBrowserState {
    ReleasePackingBrowserState::build_releases(
        PackingCategory::Incomplete,
        vec![PackedReleaseData {
            release_id: "r1".to_string(),
            release_title: "Album".to_string(),
            release_artist: "Artist".to_string(),
            assigned_count: 2,
            total_tracks: 3,
            low_confidence_acoustid_ratio: None,
            low_confidence_avg_album_match: None,
        }],
        vec![row("b", "r1", 1, 2), row("a", "r1", 1, 1), row("x", "other", 1, 1)],
        vec![UnfilledReleaseSlotData {
            release_id: "r1".to_string(),
            medium_pos: 1,
            track_pos: 3,
            track_title: "t3".to_string(),
            recording_id: "rec3".to_string(),
        }],
        Vec::new(),
        Vec::new(),
    )
}

#[test]
fn tracks_of_a_release_stand_in_order() {
    let b = browser();
    let release = b.selected_release().unwrap();
    let positions: Vec<u32> = release.tracks.iter().map(|t| t.track_position).collect();
    assert_eq!(positions, vec![1, 2]);
    assert_eq!(release.unfilled.len(), 1);
    assert_eq!(release.coverage(), share_of(2, 3));
    assert_eq!(coverage_color(release, PackingCategory::Incomplete), Color::Red);
    assert_eq!(b.selected_release_item_count(), 3);
}

#[test]
fn a_release_is_pinned_by_its_number() {
    let mut b = browser();
    assert_eq!(b.focused_pane, FocusedPane::LeftPane);
    b.handle_input(&InputAction::Char('p'));
    assert!(b.pin_input.is_some());
    b.handle_input(&InputAction::Char('x'));
    b.handle_input(&InputAction::Char('A'));
    assert_eq!(b.pin_input.as_ref().unwrap().value(), "a");
    let answer = b.handle_input(&InputAction::Confirm);
    assert!(matches!(answer, ReleasePackingBrowserAction::Nothing));
    assert_eq!(b.pin_error.as_deref(), Some("Need 32 hex characters (have 1)"));
    assert!(b.pin_overlay().is_some());
    b.handle_input(&InputAction::Paste(
        " https://musicbrainz.org/release/01234567-89AB-cdef-0123-456789abcdef ".to_string(),
    ));
    assert_eq!(b.pin_error, None);
    match b.handle_input(&InputAction::Confirm) {
        ReleasePackingBrowserAction::PinRelease { release_id, track_paths } => {
            assert_eq!(release_id, "01234567-89ab-cdef-0123-456789abcdef");
            assert_eq!(track_paths, vec!["a".to_string(), "b".to_string()]);
        }
        _ => panic!(),
    }
    assert!(b.pin_input.is_none());
}

#[test]
fn unmatched_tracks_are_listed() {
    let mut b = ReleasePackingBrowserState::build_unmatched(
        PackingCategory::UnsolvedNoMatch,
        vec![UnmatchedEntry {
            path: "corpus/x".to_string(),
            data: UnmatchedCorpusTrackData {
                recording_ids: Vec::new(),
                considered_release_ids: Vec::new(),
            },
        }],
    );
    assert!(b.selected_entry().is_some());
    assert!(b.selected_release().is_none());
    assert_eq!(b.left_pane(40, 10).len(), 1);
    assert!(matches!(
        b.handle_input(&InputAction::Cancel),
        ReleasePackingBrowserAction::Cancel
    ));
}

#[test]
fn lines_are_found_where_they_are_drawn() {
    let mut b = browser();
    b.set_click_targets(Rect { x: 0, y: 3, width: 9, height: 5 });
    assert!(b.click_targets.list_area.is_none());
    let area = Rect { x: 0, y: 3, width: 20, height: 5 };
    b.set_click_targets(area);
    assert_eq!(b.click_targets.list_area, Some(area));
    assert_eq!(b.click_targets.rows, vec![("0".to_string(), 3)]);
    assert!(b.pinned_release_ids.is_empty());
}

fn covered(id: &str, assigned_count: u32, total_tracks: u32) -> PackedReleaseData {
    PackedReleaseData {
        release_id: id.to_string(),
        release_title: id.to_string(),
        release_artist: "Artist".to_string(),
        assigned_count,
        total_tracks,
        low_confidence_acoustid_ratio: None,
        low_confidence_avg_album_match: None,
    }
}

#[test]
fn releases_stand_by_coverage() {
    let b = ReleasePackingBrowserState::build_releases(
        PackingCategory::Incomplete,
        vec![
            covered("none", 0, 0),
            covered("few", 59, 200),
            covered("half", 5, 10),
            covered("more", 50, 100),
            covered("most", 7, 10),
            covered("all", 12, 12),
        ],
        Vec::new(),
        Vec::new(),
        Vec::new(),
        Vec::new(),
    );
    let order: Vec<&str> = b.releases.iter().map(|r| r.release_id.as_str()).collect();
    assert_eq!(order, vec!["all", "most", "more", "half", "few", "none"]);
    let colors: Vec<Color> =
        b.releases.iter().map(|r| coverage_color(r, PackingCategory::Incomplete)).collect();
    assert_eq!(
        colors,
        vec![Color::Green, Color::Yellow, Color::Red, Color::Red, Color::Red, Color::Red],
    );
    assert_eq!(coverage_color(&b.releases[0], PackingCategory::LowConfidence), Color::Yellow);
    let words: Vec<String> = release_overview(&b.releases[4], PackingCategory::Incomplete)
        .iter()
        .flat_map(|l| l.spans.iter())
        .map(|s| s.text.clone())
        .collect();
    assert!(words.concat().contains("29%"), "{:?}", words);
}

fn written(controls: &[Control]) -> String {
    controls.iter().map(|c| c.words.as_str()).collect()
}

#[test]
fn pinning_is_told_of_where_it_can_be_done() {
    let mut b = browser();
    assert_eq!(written(&b.controls()), " ^v nav  Shift+Arrow switch pane  p pin release  Esc close");
    assert_eq!(b.controls()[5].kind, ControlKind::Nav);
    assert_eq!(b.controls()[7].kind, ControlKind::Cancel);
    b.handle_input(&InputAction::Char('p'));
    assert_eq!(written(&b.controls()), " ^v nav  Shift+Arrow switch pane  Esc close");
    assert_eq!(written(&pin_controls()), "Enter confirm  Esc cancel");
    let none = ReleasePackingBrowserState::build_unmatched(PackingCategory::UnsolvedNoMatch, Vec::new());
    assert_eq!(written(&none.controls()), " ^v nav  Shift+Arrow switch pane  Esc close");
}
