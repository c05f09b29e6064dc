use rhino_update::decimal::{decimal_string, push_decimal};

#[test]
fn zero_is_a_single_digit() {
    assert_eq!(decimal_string(0), "0");
}

#[test]
fn single_digits() {
    let expected = ["0", "1", "2", "3", "4", "5", "6", "7", "8", "9"];
    for (value, text) in expected.iter().enumerate() {
        assert_eq!(decimal_string(value as i32), *text);
    }
}

#[test]
fn several_digits_most_significant_first() {
    assert_eq!(decimal_string(10), "10");
    assert_eq!(decimal_string(127), "127");
    assert_eq!(decimal_string(1002003), "1002003");
}

#[test]
fn negative_numbers_carry_a_minus_sign() {
    assert_eq!(decimal_string(-1), "-1");
    assert_eq!(decimal_string(-255), "-255");
}

#[test]
fn the_extremes() {
    assert_eq!(decimal_string(i32::MAX), "2147483647");
    assert_eq!(decimal_string(i32::MIN), "-2147483648");
}

#[test]
fn agrees_with_the_standard_notation() {
    let mut value: i32 = -100_000;
    while value < 100_000 {
        assert_eq!(decimal_string(value), value.to_string());
        value += 37;
    }
}

#[test]
fn push_decimal_appends() {
    let mut text = String::from("code ");
    push_decimal(&mut text, 42);
    push_decimal(&mut text, -7);
    assert_eq!(text, "code 42-7");
}
