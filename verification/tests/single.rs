use mm_ui::file_size::size_label;
use mm_ui::single::{share_of, Single};
use mm_ui::work_status::Progress;

/// A series of numbers that look random.
struct Series(u64);

impl Series {
    fn next(&mut self) -> u64 {
        self.0 ^= self.0 << 13;
        self.0 ^= self.0 >> 7;
        self.0 ^= self.0 << 17;
        self.0
    }
}

fn value(s: Single) -> f32 {
    s.bits as f32 * (s.moved as f32).exp2()
}

fn percent(part: u64, whole: u64) -> String {
    share_of(part, whole).times(Single::of(100, 1)).nearest_whole().to_string()
}

#[test]
fn numbers_are_those_of_single_precision() {
    let mut series = Series(0x9e37_79b9_7f4a_7c15);
    for _ in 0..200_000 {
        let part = series.next() >> (series.next() % 64);
        let whole = (series.next() >> (series.next() % 64)).max(1);
        assert_eq!(value(Single::of(part, 1)), part as f32);
        assert_eq!(value(share_of(part, whole)), part as f32 / whole as f32);
    }
    assert_eq!(value(Single::of(7, 10)), 0.7_f32);
    assert_eq!(value(Single::of(10, 10)), 1.0_f32);
    assert_eq!(value(Single::zero()), 0.0_f32);
}

#[test]
fn cells_are_those_of_single_precision() {
    for total in 1..=300_u64 {
        for done in 0..=total + 20 {
            let share = done as f32 / total as f32;
            for width in [0_u16, 1, 7, 36, 40, 79, 80, 65535] {
                let cells = (share * width as f32) as u16;
                assert_eq!(Progress { done, total }.filled(width), cells);
            }
        }
    }
    let mut series = Series(0x2545_f491_4f6c_dd1d);
    for _ in 0..200_000 {
        let done = series.next() >> (series.next() % 64);
        let total = (series.next() >> (series.next() % 64)).max(1);
        let width = (series.next() % 81) as u16;
        let cells = (done as f32 / total as f32 * width as f32) as u16;
        assert_eq!(Progress { done, total }.filled(width), cells);
    }
}

#[test]
fn percents_are_those_of_single_precision() {
    for whole in 1..=400_u64 {
        for part in 0..=whole + 30 {
            assert_eq!(percent(part, whole), format!("{:.0}", part as f32 / whole as f32 * 100.0));
        }
    }
    let mut series = Series(0xd134_2543_de82_ef95);
    for _ in 0..50_000 {
        let part = series.next() as u32 as u64 >> (series.next() % 32);
        let whole = (series.next() as u32 as u64 >> (series.next() % 32)).max(1);
        assert_eq!(percent(part, whole), format!("{:.0}", part as f32 / whole as f32 * 100.0));
    }
    // The nearest share to fifty-nine of two hundred is a little below it.
    assert_eq!(percent(59, 200), "29");
    assert_eq!(percent(1, 8), "12");
    assert_eq!(percent(3, 8), "38");
}

#[test]
fn shares_are_ordered_as_in_single_precision() {
    let seven_tenths = Single::of(7, 10);
    let full = Single::of(10, 10);
    for whole in 1..=200_u64 {
        for part in 0..=whole + 5 {
            let share = part as f32 / whole as f32;
            assert_eq!(!seven_tenths.exceeds(share_of(part, whole)), share >= 0.7);
            assert_eq!(!full.exceeds(share_of(part, whole)), share >= 1.0);
            assert_eq!(share_of(part, whole).exceeds(share_of(1, 3)), share > 1.0_f32 / 3.0);
        }
    }
    // Two counts of more than 24 bits can have the same number.
    assert!(!full.exceeds(share_of(16_777_216, 16_777_217)));
    assert!(full.exceeds(share_of(16_777_214, 16_777_215)));
}

#[test]
fn sizes_are_those_of_double_precision() {
    let expected = |n: i64| {
        if n < 1024 {
            format!("{} B", n)
        } else if n < 1024 * 1024 {
            format!("{:.1} KB", n as f64 / 1024.0)
        } else {
            format!("{:.2} MB", n as f64 / (1024.0 * 1024.0))
        }
    };
    for n in -5..20_000_i64 {
        assert_eq!(size_label(n), expected(n));
    }
    let mut series = Series(0x1234_5678_9abc_def1);
    for _ in 0..50_000 {
        let n = (series.next() >> (1 + series.next() % 63)) as i64;
        assert_eq!(size_label(n), expected(n));
    }
    for n in [1_048_575, 1_048_576, 1 << 53, (1 << 53) + 1, i64::MAX, i64::MIN] {
        assert_eq!(size_label(n), expected(n));
    }
}
