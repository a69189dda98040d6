use mm_ui::content_analysis::ContentAnalysisProgress;
use mm_ui::progress_screen::{ProgressScreen, Pulse};
use mm_ui::progressive_worker::{modal_area, CompoundGroup, ProgressiveWorkerState};
use mm_ui::screen::Rect;
use mm_ui::splash_screen::{EyeState, LoadingType, SplashScreen};
use mm_ui::work_status::{
    bar_text, detail_of, load_color, plain_bar_area, small_eye_area, PendingCount, Progress, ReasoningLevel, WorkStateSnapshot, WorkStatus,
};
use mm_ui::screen::Color;

fn status(state: WorkStateSnapshot, done: u64, queued: u64, pending: u64) -> WorkStatus {
    WorkStatus {
        total_processed: done,
        session_queued: queued,
        pending,
        state,
        pending_by_label: Vec::new(),
    }
}

#[test]
fn bars_fill_with_progress() {
    assert_eq!(Progress { done: 0, total: 10 }.filled(10), 0);
    assert_eq!(Progress { done: 5, total: 10 }.filled(10), 5);
    assert_eq!(Progress { done: 10, total: 10 }.filled(10), 10);
    assert_eq!(bar_text(Progress { done: 1, total: 2 }, 4), "[==  ]");
    assert_eq!(load_color(1, 10, 100), Color::Green);
    assert_eq!(load_color(1000, 10, 100), Color::Red);
}

#[test]
fn analysis_is_done_once_work_was_seen_and_ended() {
    let mut p = ContentAnalysisProgress::new();
    assert!(!p.is_complete());
    assert!(!p.tick(&status(WorkStateSnapshot::Working, 1, 4, 3)));
    assert!(p.progress().is_some());
    p.tick(&status(WorkStateSnapshot::Done, 4, 4, 0));
    assert!(p.is_complete());
    assert!(!p.status_message().is_empty());
}

#[test]
fn splash_screens_name_what_is_loaded() {
    let splash = SplashScreen::new();
    assert!(!splash.is_complete());
    let named = SplashScreen::with_loading_type(LoadingType::Operation("Sorting".to_string()));
    assert_eq!(named.loading_type().message(), "Sorting");
    let mut splash = SplashScreen::new();
    splash.set_db_queue_depth(3);
    splash.tick(&status(WorkStateSnapshot::Working, 1, 2, 1), EyeState::Awakening);
    assert!(splash.queue_depth_line().is_some());
    assert!(!splash.row_heights(30, false).is_empty());
}

#[test]
fn progress_screens_go_through_their_phases() {
    let mut screen = ProgressScreen::new_content_analysis();
    assert!(!screen.is_complete());
    assert!(!screen.uses_closed_eye());
    assert!(ProgressScreen::new_eyeballing().uses_closed_eye());
    assert!(!ProgressScreen::new_signal_refresh().uses_closed_eye());
    let mut working = status(WorkStateSnapshot::Working, 2, 4, 2);
    working.pending_by_label.push(PendingCount { label: "scan".to_string(), count: 2 });
    screen.tick(Pulse {
        elapsed_ms: 10,
        status: working,
        db_stats: None,
        worker_stats: None,
        db_queue_depth: 0,
        reasoning_level: ReasoningLevel::Full,
    });
    assert!(!screen.is_complete());
    assert!(screen.format_task_summary().unwrap().contains("scan"));
    assert!("⠁⠂⠄".contains(screen.spinner_char_left()));
    assert!(!screen.status_message().is_empty());
}

#[test]
fn details_tell_how_far_the_work_is() {
    let d = detail_of(&status(WorkStateSnapshot::Working, 3, 9, 6));
    assert!(d.contains('3') || d.contains('6') || d.contains('9'));
}

#[test]
fn a_worker_counts_its_items() {
    let group = |v: &str| CompoundGroup {
        tag_name: "artist".to_string(),
        value: v.to_string(),
        inodes: vec![1, 2],
    };
    let worker = ProgressiveWorkerState::for_compound_splits(vec![group("a"), group("b")], true);
    assert_eq!(worker.progress_ratio(), (0, 2));
    assert_eq!(worker.work_queue.len(), 2);
    let summary = worker.build_summary();
    assert_eq!(summary.mutations_generated, 0);
    assert_eq!(worker.counter_text(), "0 / 2");
    assert_eq!(worker.item_text(40), None);
    let area = modal_area(Rect { x: 0, y: 0, width: 100, height: 40 });
    assert!(area.width <= 100 && area.height <= 40);
}

#[test]
fn plain_bars_and_eyes_stand_in_the_middle() {
    let rect = |x: u16, y: u16, width: u16, height: u16| Rect { x, y, width, height };
    assert_eq!(small_eye_area(rect(2, 0, 100, 30), 5, 16), rect(22, 5, 60, 16));
    assert_eq!(small_eye_area(rect(2, 0, 50, 30), 5, 16), rect(2, 5, 50, 16));
    assert_eq!(plain_bar_area(rect(2, 9, 100, 3)), rect(32, 9, 44, 3));
    assert_eq!(plain_bar_area(rect(2, 9, 20, 3)), rect(4, 9, 20, 3));
    assert_eq!(plain_bar_area(rect(2, 9, 3, 3)), rect(3, 9, 4, 3));
}
