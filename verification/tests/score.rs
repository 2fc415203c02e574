use monsoon::score::{score_item, try_score};

const MIB: u64 = 1024 * 1024;

#[test]
fn unknown_size_scores_worst() {
    assert_eq!(try_score(0, 100, 0, 400 * MIB), Some(i64::MAX));
    assert_eq!(score_item(0, 0, 0, 0), i64::MAX);
}

#[test]
fn score_formula_exact_values() {
    // 20 MiB over the preferred size is less than a tenth of the size.
    assert_eq!(try_score(420 * MIB, 50, 0, 400 * MIB), Some(-750));
    assert_eq!(try_score(1000, 0, 25, 100), Some(11));
    assert_eq!(try_score(100, 1, 0, 1000), Some(-105));
    assert_eq!(try_score(19, 0, 0, 0), Some(19));
    assert_eq!(try_score(20, 0, 0, 0), Some(10));
    assert_eq!(score_item(1000, 2, 9, 1000), -30);
}

#[test]
fn tiny_sizes_have_no_score() {
    for size in 1..10u64 {
        assert_eq!(try_score(size, 5, 5, 400 * MIB), None);
    }
    assert!(try_score(10, 5, 5, 400 * MIB).is_some());
}

#[test]
fn score_beyond_64_bits_is_none() {
    assert_eq!(try_score(10, u32::MAX, 0, u64::MAX), None);
}

#[test]
fn more_seeders_never_score_higher() {
    let mut last = i64::MAX;
    for seeders in [0u32, 1, 5, 50, 500] {
        let s = try_score(700 * MIB, seeders, 3, 400 * MIB).unwrap();
        assert!(s <= last);
        last = s;
    }
}

#[test]
fn further_above_preferred_never_scores_lower() {
    let size = 900 * MIB;
    let mut last = i64::MIN;
    for preferred in [900 * MIB, 800 * MIB, 400 * MIB, 1] {
        let s = try_score(size, 5, 0, preferred).unwrap();
        assert!(s >= last);
        last = s;
    }
}
