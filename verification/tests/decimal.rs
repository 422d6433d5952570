use usb_details::decimal::{append_decimal, read_decimal};

fn rendered(n: u16) -> String {
    let mut out = String::new();
    append_decimal(&mut out, n);
    out
}

fn read(text: &str, max: u16) -> Option<u16> {
    let chars: Vec<char> = text.chars().collect();
    read_decimal(&chars, 0, chars.len(), max)
}

#[test]
fn zero_is_a_single_digit() {
    assert_eq!(rendered(0), "0");
}

#[test]
fn numbers_render_in_base_ten_without_leading_zeros() {
    assert_eq!(rendered(7), "7");
    assert_eq!(rendered(10), "10");
    assert_eq!(rendered(255), "255");
    assert_eq!(rendered(1000), "1000");
    assert_eq!(rendered(4660), "4660");
    assert_eq!(rendered(65535), "65535");
}

#[test]
fn append_decimal_keeps_what_was_there() {
    let mut out = String::from("Bus number: ");
    append_decimal(&mut out, 42);
    assert_eq!(out, "Bus number: 42");
}

#[test]
fn rendering_agrees_with_the_standard_library() {
    for n in 0..=u16::MAX {
        assert_eq!(rendered(n), format!("{}", n));
    }
}

#[test]
fn numerals_are_read_back() {
    assert_eq!(read("0", 255), Some(0));
    assert_eq!(read("9", 255), Some(9));
    assert_eq!(read("255", 255), Some(255));
    assert_eq!(read("65535", 65535), Some(65535));
}

#[test]
fn every_number_survives_writing_and_reading() {
    for n in 0..=u16::MAX {
        assert_eq!(read(&rendered(n), u16::MAX), Some(n));
    }
}

#[test]
fn numbers_above_the_limit_are_refused() {
    assert_eq!(read("256", 255), None);
    assert_eq!(read("65536", 65535), None);
    assert_eq!(read("99999999999999999999999999", 65535), None);
}

#[test]
fn leading_zeros_are_refused() {
    assert_eq!(read("00", 255), None);
    assert_eq!(read("007", 255), None);
    assert_eq!(read("01", 65535), None);
}

#[test]
fn anything_but_digits_is_refused() {
    assert_eq!(read("", 255), None);
    assert_eq!(read("12a", 255), None);
    assert_eq!(read("-1", 255), None);
    assert_eq!(read("+1", 255), None);
    assert_eq!(read(" 1", 255), None);
    assert_eq!(read("1 ", 255), None);
    assert_eq!(read("٣", 255), None);
}

#[test]
fn a_numeral_is_read_from_the_middle_of_a_text() {
    let chars: Vec<char> = "id: 4660;".chars().collect();
    assert_eq!(read_decimal(&chars, 4, 8, u16::MAX), Some(4660));
    assert_eq!(read_decimal(&chars, 4, 9, u16::MAX), None);
    assert_eq!(read_decimal(&chars, 4, 4, u16::MAX), None);
}

#[test]
fn nothing_is_read_from_a_range_outside_the_text() {
    let chars: Vec<char> = "12".chars().collect();
    assert_eq!(read_decimal(&chars, 0, 3, u16::MAX), None);
    assert_eq!(read_decimal(&chars, 2, 1, u16::MAX), None);
    assert_eq!(read_decimal(&chars, 5, 7, u16::MAX), None);
    assert_eq!(read_decimal(&chars, 1, 2, u16::MAX), Some(2));
}
