use command_matcher::text::{decimal, write_hit, write_miss, write_near};

#[test]
fn decimal_of_single_digits() {
    assert_eq!(decimal(0), "0");
    assert_eq!(decimal(1), "1");
    assert_eq!(decimal(2), "2");
    assert_eq!(decimal(3), "3");
    assert_eq!(decimal(4), "4");
    assert_eq!(decimal(5), "5");
    assert_eq!(decimal(6), "6");
    assert_eq!(decimal(7), "7");
    assert_eq!(decimal(8), "8");
    assert_eq!(decimal(9), "9");
}

#[test]
fn decimal_of_longer_numbers() {
    assert_eq!(decimal(10), "10");
    assert_eq!(decimal(99), "99");
    assert_eq!(decimal(100), "100");
    assert_eq!(decimal(1203), "1203");
    assert_eq!(decimal(4294967295), "4294967295");
}

#[test]
fn decimal_agrees_with_display() {
    for n in [0usize, 9, 10, 11, 19, 20, 101, 110, 999, 1000, 65535, 65536, usize::MAX] {
        assert_eq!(decimal(n), format!("{}", n));
    }
}

#[test]
fn hit_is_written_around_the_quoted_name() {
    assert_eq!(write_hit("\"echo\""), "Hit(\"echo\")");
    assert_eq!(write_hit(""), "Hit()");
}

#[test]
fn near_is_written_with_name_and_distance() {
    assert_eq!(write_near("\"fimpsh\"", 2), "Near(\"fimpsh\", 2)");
    assert_eq!(write_near("\"echo\"", 10), "Near(\"echo\", 10)");
    assert_eq!(write_near("\"echo\"", 0), "Near(\"echo\", 0)");
}

#[test]
fn miss_is_written_bare() {
    assert_eq!(write_miss(), "Miss");
}
