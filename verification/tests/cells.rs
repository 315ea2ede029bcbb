use gridwalk::cell::parse_cell;

#[test]
fn plain_digits_are_read_in_base_ten() {
    assert_eq!(parse_cell("0"), Some(0));
    assert_eq!(parse_cell("1"), Some(1));
    assert_eq!(parse_cell("12"), Some(12));
    assert_eq!(parse_cell("4096"), Some(4096));
}

#[test]
fn a_sign_may_come_first() {
    assert_eq!(parse_cell("-5"), Some(-5));
    assert_eq!(parse_cell("+7"), Some(7));
    assert_eq!(parse_cell("-0"), Some(0));
}

#[test]
fn leading_zeros_do_not_change_the_value() {
    assert_eq!(parse_cell("007"), Some(7));
    assert_eq!(parse_cell("0000000000000000000000000012"), Some(12));
    assert_eq!(parse_cell("-0000000000000000000000000012"), Some(-12));
}

#[test]
fn the_whole_range_of_i32_is_read() {
    assert_eq!(parse_cell("2147483647"), Some(i32::MAX));
    assert_eq!(parse_cell("-2147483648"), Some(i32::MIN));
}

#[test]
fn values_outside_i32_are_refused() {
    assert_eq!(parse_cell("2147483648"), None);
    assert_eq!(parse_cell("-2147483649"), None);
    assert_eq!(parse_cell("99999999999999999999999999"), None);
    assert_eq!(parse_cell("+2147483648"), None);
}

#[test]
fn text_without_digits_is_refused() {
    assert_eq!(parse_cell(""), None);
    assert_eq!(parse_cell("-"), None);
    assert_eq!(parse_cell("+"), None);
}

#[test]
fn anything_but_sign_and_digits_is_refused() {
    assert_eq!(parse_cell(" 1"), None);
    assert_eq!(parse_cell("1 "), None);
    assert_eq!(parse_cell("1a"), None);
    assert_eq!(parse_cell("a1"), None);
    assert_eq!(parse_cell("--1"), None);
    assert_eq!(parse_cell("+-1"), None);
    assert_eq!(parse_cell("1-"), None);
    assert_eq!(parse_cell("1.0"), None);
    assert_eq!(parse_cell("0x10"), None);
    assert_eq!(parse_cell("١"), None);
    assert_eq!(parse_cell("é1"), None);
}

#[test]
fn parse_cell_agrees_with_the_standard_parser() {
    let samples = vec![
        "0", "1", "-1", "+1", "10", "0010", "2147483647", "2147483648", "-2147483648",
        "-2147483649", "", "-", "+", "++1", "1+", "12x", "x", " 3", "3\n", "१२",
    ];
    for sample in samples {
        assert_eq!(parse_cell(sample), sample.parse::<i32>().ok(), "on {:?}", sample);
    }
}
