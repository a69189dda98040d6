use mm_ui::input::{InputAction, KeyCode, KeyEvent};
use mm_ui::ordering::sorted;
use mm_ui::paths;
use mm_ui::screen::{scroll_indicator, Line, Rect};
use mm_ui::text;
use mm_ui::text_input::TextInputState;
use mm_ui::widgets::{down_one, down_ten, scrolled_to, up_one, up_ten, BulkSelectionState};

#[test]
fn text_is_trimmed_joined_and_counted() {
    assert_eq!(text::trim(" \t a b\u{a0} "), "a b");
    assert_eq!(text::trim("   "), "");
    let parts = vec!["a".to_string(), "b".to_string(), "c".to_string()];
    assert_eq!(text::join(&parts, ", "), "a, b, c");
    assert_eq!(text::join(&Vec::new(), ", "), "");
    assert_eq!(text::dec(0), "0");
    assert_eq!(text::dec(1207), "1207");
    assert_eq!(text::place(9), "10");
    assert_eq!(text::signed(i64::MIN), "-9223372036854775808");
    assert_eq!(text::signed(-5), "-5");
    assert_eq!(text::two(7), "07");
    assert_eq!(text::two(107), "107");
    assert_eq!(text::clock(180000), "3:00");
    assert_eq!(text::clock(61999), "1:01");
}

#[test]
fn text_is_fitted_to_a_width() {
    assert_eq!(text::pad("ab", 4), "ab  ");
    assert_eq!(text::pad("abcd", 2), "abcd");
    assert_eq!(text::pad_left("7", 3), "  7");
    assert_eq!(text::center("ab", 5), " ab  ");
    assert_eq!(text::center("abc", 2), "abc");
    assert_eq!(text::repeat('x', 3), "xxx");
    assert_eq!(text::truncate_for_width("abcdef", 5), "ab...");
    assert_eq!(text::truncate_right("abc", 3), "abc");
    assert_eq!(text::truncate_right("äbcd", 3).chars().count(), 3);
    assert_eq!(text::truncate_left("abcd", 3).chars().count(), 3);
    assert!(text::truncate_left("abcd", 3).ends_with("cd"));
}

#[test]
fn text_is_compared() {
    assert!(text::comes_before("a", "b"));
    assert!(text::comes_before("a", "ab"));
    assert!(text::comes_before("Z", "a"));
    assert!(!text::comes_before("a", "a"));
    assert!(text::contains("hello", "ell"));
    assert!(text::contains("hello", ""));
    assert!(!text::contains("hello", "lle"));
    assert!(text::starts_with("album_artist", "album"));
    assert!(text::equal_but_case("ARTist", "artIST"));
    assert!(!text::equal_but_case("Ä", "ä"));
    assert!(text::among(&vec!["x".to_string()], "x"));
}

#[test]
fn paths_are_taken_apart() {
    assert_eq!(paths::file_name("/a/b.flac"), Some("b.flac"));
    assert_eq!(paths::file_name("/a/b/"), Some("b"));
    assert_eq!(paths::file_name("/"), None);
    assert_eq!(paths::file_name(".."), None);
    assert_eq!(paths::name_or("/", "x"), "x");
    assert_eq!(paths::suffix("b.flac"), Some("flac"));
    assert_eq!(paths::suffix(".hidden"), None);
    assert_eq!(paths::resolve("/root", "a/b"), "/root/a/b");
    assert_eq!(paths::resolve("/root/", "a"), "/root/a");
    assert_eq!(paths::resolve("/root", "/a"), "/a");
    assert_eq!(paths::folder("/a/b.flac"), "/a/");
}

#[test]
fn sorting_is_stable_by_the_first_half() {
    let pairs = vec![
        ("b".to_string(), "1".to_string()),
        ("a".to_string(), "2".to_string()),
        ("b".to_string(), "0".to_string()),
    ];
    let r = sorted(pairs);
    let seconds: Vec<&str> = r.iter().map(|p| p.1.as_str()).collect();
    assert_eq!(seconds, vec!["2", "1", "0"]);
    assert_eq!(sorted(vec![3i64, -1, 2]), vec![-1, 2, 3]);
}

#[test]
fn typing_moves_the_cursor_and_backspace_takes_back() {
    let mut t = TextInputState::new();
    t.insert_str("hällo");
    assert_eq!(t.cursor, 5);
    t.handle_input(&InputAction::NavLeft);
    t.insert_char('!');
    assert_eq!(t.value(), "häll!o");
    t.handle_input(&InputAction::Backspace);
    assert_eq!(t.value(), "hällo");
    t.handle_key(KeyEvent { code: KeyCode::Char('a'), control: true, shift: false });
    assert_eq!(t.cursor, 0);
    t.handle_input(&InputAction::Delete);
    assert_eq!(t.value(), "ällo");
    let (before, under, after) = t.cursor_splits();
    assert_eq!((before.as_str(), under.as_str(), after.as_str()), ("", "ä", "llo"));
    t.handle_input(&InputAction::KillToEnd);
    assert!(t.is_empty());
    let (_, under, _) = t.cursor_splits();
    assert_eq!(under, " ");
}

#[test]
fn selections_are_switched_over() {
    let mut s = BulkSelectionState::new();
    assert!(!s.is_active());
    s.toggle(3);
    s.toggle(3);
    assert_eq!(s.selection_count(), 0);
    s.toggle(1);
    s.toggle_all_filtered(&vec![1, 2]);
    assert!(s.is_selected(1) && s.is_selected(2));
    s.toggle_all_filtered(&vec![1, 2]);
    assert_eq!(s.selection_count(), 0);
    s.select_all(4);
    assert_eq!(s.selection_count(), 4);
    assert!(s.is_active());
}

#[test]
fn windows_follow_the_cursor() {
    assert_eq!(scrolled_to(5, 0, 3), 3);
    assert_eq!(scrolled_to(1, 3, 3), 1);
    assert_eq!(scrolled_to(4, 3, 3), 3);
    assert_eq!(up_one(0), 0);
    assert_eq!(up_ten(12), 2);
    assert_eq!(up_ten(9), 0);
    assert_eq!(down_one(4, 5), 4);
    assert_eq!(down_one(3, 5), 4);
    assert_eq!(down_ten(0, 5), 4);
    assert_eq!(down_ten(usize::MAX, 5), 4);
    assert_eq!(down_ten(3, 0), 0);
}

#[test]
fn lines_and_areas() {
    let r = Rect { x: 2, y: 3, width: 4, height: 1 };
    assert!(r.contains(2, 3));
    assert!(r.contains(5, 3));
    assert!(!r.contains(6, 3));
    assert!(!r.contains(2, 4));
    assert_eq!(scroll_indicator(3, 0, 5), "");
    assert!(scroll_indicator(8, 0, 5).starts_with(" [1"));
    assert_eq!(Line::raw("x").spans.len(), 1);
}
