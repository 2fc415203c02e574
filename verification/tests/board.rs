use monsoon::board::ScoreBoard;

#[test]
fn entries_come_out_by_rising_score() {
    let mut b: ScoreBoard<&str> = ScoreBoard::new();
    assert_eq!(b.len(), 0);
    b.insert(5, "five");
    b.insert(-3, "minus three");
    b.insert(i64::MAX, "worst");
    b.insert(0, "zero");
    assert_eq!(b.len(), 4);
    assert_eq!(b.into_values(), vec!["minus three", "zero", "five", "worst"]);
}

#[test]
fn entries_of_one_score_stay_in_the_order_they_came() {
    let mut b: ScoreBoard<u8> = ScoreBoard::new();
    b.insert(1, 10);
    b.insert(2, 20);
    b.insert(1, 11);
    b.insert(0, 0);
    b.insert(2, 21);
    b.insert(1, 12);
    assert_eq!(b.len(), 6);
    assert_eq!(b.into_values(), vec![0, 10, 11, 12, 20, 21]);
    let e: ScoreBoard<u8> = ScoreBoard::new();
    assert!(e.into_values().is_empty());
}
