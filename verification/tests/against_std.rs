use std::path::{Path, PathBuf};

use mm_ui::ordering::sorted;
use mm_ui::paths;
use mm_ui::tag_search::evaluate::parse_number;
use mm_ui::text;

/// All strings of up to `n` of some characters.
fn strings(alphabet: &[char], n: usize) -> Vec<String> {
    let mut all = vec![String::new()];
    let mut last = vec![String::new()];
    for _ in 0..n {
        let mut next = Vec::new();
        for s in &last {
            for c in alphabet {
                let mut t = s.clone();
                t.push(*c);
                next.push(t);
            }
        }
        all.extend(next.iter().cloned());
        last = next;
    }
    all
}

#[test]
fn names_and_suffixes_are_those_of_std() {
    for s in strings(&['/', '.', 'a'], 7) {
        let name = Path::new(&s).file_name().map(|n| n.to_str().unwrap());
        assert_eq!(paths::file_name(&s), name, "{:?}", s);
        if let Some(n) = name {
            let suffix = Path::new(n).extension().map(|x| x.to_str().unwrap());
            assert_eq!(paths::suffix(n), suffix, "{:?}", n);
        }
        let folder = Path::new(&s)
            .parent()
            .and_then(|p| p.file_name())
            .map(|n| n.to_str().unwrap().to_string());
        assert_eq!(
            paths::file_name(paths::folder(&s)).map(|n| n.to_string()),
            folder,
            "{:?}",
            s
        );
    }
}

#[test]
fn joined_paths_are_those_of_std() {
    for root in strings(&['/', 'a'], 3) {
        for p in strings(&['/', 'b'], 3) {
            let joined = Path::new(&root).join(&p);
            assert_eq!(paths::resolve(&root, &p), joined.to_str().unwrap());
        }
    }
}

#[test]
fn paths_stand_in_the_order_of_std() {
    let all = strings(&['/', 'a', '.', '!'], 5);
    for a in &all {
        assert_eq!(paths::has_parent(a), Path::new(a).parent().is_some(), "{:?}", a);
    }
    let some = strings(&['/', 'a', '.', '!'], 4);
    for a in &some {
        for b in &some {
            assert_eq!(paths::comes_before(a, b), Path::new(a) < Path::new(b), "{:?} {:?}", a, b);
            assert_eq!(paths::same_path(a, b), Path::new(a) == Path::new(b), "{:?} {:?}", a, b);
        }
    }
    let longer = strings(&['/', '.', 'b'], 6);
    for a in longer.iter().step_by(3) {
        for b in longer.iter().step_by(7) {
            assert_eq!(paths::comes_before(a, b), Path::new(a) < Path::new(b), "{:?} {:?}", a, b);
            assert_eq!(paths::same_path(a, b), Path::new(a) == Path::new(b), "{:?} {:?}", a, b);
        }
    }
}

#[test]
fn paths_are_sorted_as_by_std() {
    let texts = ["a//c", "a/b", "../x", "!a", "./a", "/z", "a/./a", "é", "a"];
    let mut by_std: Vec<PathBuf> = texts.iter().map(PathBuf::from).collect();
    by_std.sort();
    let ours = paths::sorted_paths(texts.iter().map(|t| t.to_string()).collect());
    let ours: Vec<PathBuf> = ours.iter().map(PathBuf::from).collect();
    assert_eq!(ours, by_std);
}

#[test]
fn trimming_is_that_of_std() {
    for s in strings(&[' ', '\t', '\u{a0}', '\u{3000}', 'x', '\u{200b}'], 4) {
        assert_eq!(text::trim(&s), s.trim());
    }
}

#[test]
fn comparisons_are_those_of_std() {
    let all = strings(&['a', 'B', 'b', 'é', '😀'], 3);
    for a in &all {
        for b in &all {
            assert_eq!(text::comes_before(a, b), a < b);
            assert_eq!(text::contains(a, b), a.contains(b.as_str()));
            assert_eq!(text::starts_with(a, b), a.starts_with(b.as_str()));
            assert_eq!(text::equal_but_case(a, b), a.eq_ignore_ascii_case(b));
        }
    }
    let mut by_std = all.clone();
    by_std.sort();
    assert_eq!(sorted(all), by_std);
}

#[test]
fn numbers_are_written_and_read_as_by_std() {
    for n in [0i64, 1, 9, 10, 99, 100, 12345, i64::MAX, -1, -10, i64::MIN] {
        assert_eq!(text::signed(n), n.to_string());
        assert_eq!(parse_number(&n.to_string()), Some(n));
    }
    for n in [0u128, 7, 10, 18446744073709551615, u128::MAX] {
        assert_eq!(text::dec(n), n.to_string());
    }
    for s in strings(&['0', '9', '-', '+', ' '], 4) {
        assert_eq!(parse_number(&s), s.parse::<i64>().ok(), "{:?}", s);
    }
    for s in ["9223372036854775807", "9223372036854775808", "-9223372036854775808", "-9223372036854775809", "00000000000000000000001"] {
        assert_eq!(parse_number(s), s.parse::<i64>().ok());
    }
}

#[test]
fn widths_are_those_of_std() {
    for s in strings(&['a', 'é'], 3) {
        for width in 0..6 {
            assert_eq!(text::pad(&s, width), format!("{:<width$}", s, width = width));
            assert_eq!(text::pad_left(&s, width), format!("{:>width$}", s, width = width));
            assert_eq!(text::center(&s, width), format!("{:^width$}", s, width = width));
        }
    }
    for n in 0..12u128 {
        assert_eq!(text::two(n), format!("{:02}", n));
    }
}
