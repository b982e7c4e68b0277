use game_of_life::utils::min_one;

#[test]
fn min_one_raises_what_is_below_one() {
    assert_eq!(min_one(0), 1);
    assert_eq!(min_one(-1), 1);
    assert_eq!(min_one(-5), 1);
    assert_eq!(min_one(i32::MIN), 1);
}

#[test]
fn min_one_keeps_what_is_at_least_one() {
    assert_eq!(min_one(1), 1);
    assert_eq!(min_one(2), 2);
    assert_eq!(min_one(7), 7);
    assert_eq!(min_one(i32::MAX), i32::MAX);
}
