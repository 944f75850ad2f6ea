use validbr::digits::{is_all_decimal, to_array};
use validbr::text::{
    char_to_digit, extract_digits, has_shape, is_only_digits, push_decimal,
    push_decimal_string, to_chars,
};

#[test]
fn chars_are_taken_in_order() {
    assert_eq!(to_chars("a1-\u{e9}"), vec!['a', '1', '-', '\u{e9}']);
    assert_eq!(to_chars(""), Vec::<char>::new());
}

#[test]
fn only_the_ten_digit_characters_are_digits() {
    assert_eq!(char_to_digit('0'), Some(0));
    assert_eq!(char_to_digit('7'), Some(7));
    assert_eq!(char_to_digit('9'), Some(9));
    assert_eq!(char_to_digit('/'), None);
    assert_eq!(char_to_digit(':'), None);
    assert_eq!(char_to_digit('a'), None);
    assert_eq!(char_to_digit('\u{663}'), None);
}

#[test]
fn only_digits_needs_at_least_one_digit() {
    assert!(!is_only_digits(&[]));
    assert!(is_only_digits(&['0']));
    assert!(is_only_digits(&['1', '2', '3']));
    assert!(!is_only_digits(&['1', ' ', '3']));
    assert!(!is_only_digits(&['1', '2', 'x']));
}

#[test]
fn digits_are_extracted_in_order() {
    assert_eq!(extract_digits(&to_chars("12.3-4/5 x6")), vec![1, 2, 3, 4, 5, 6]);
    assert_eq!(extract_digits(&to_chars("no digits")), Vec::<u8>::new());
}

#[test]
fn shapes_are_matched_position_by_position() {
    let shape = to_chars("#-#");
    assert!(has_shape(&to_chars("1-2"), &shape));
    assert!(has_shape(&to_chars("0-9"), &shape));
    assert!(!has_shape(&to_chars("1.2"), &shape));
    assert!(!has_shape(&to_chars("a-2"), &shape));
    assert!(!has_shape(&to_chars("1-b"), &shape));
    assert!(!has_shape(&to_chars("#-#"), &shape));
    assert!(!has_shape(&to_chars("\u{661}-2"), &shape));
}

#[test]
fn shapes_take_the_whole_text() {
    let shape = to_chars("#-#");
    assert!(!has_shape(&to_chars("x1-2"), &shape));
    assert!(!has_shape(&to_chars("1-2x"), &shape));
    assert!(!has_shape(&to_chars("1-2 "), &shape));
    assert!(!has_shape(&to_chars("11-2"), &shape));
    assert!(!has_shape(&to_chars("1-"), &shape));
    assert!(!has_shape(&to_chars(""), &shape));
    assert!(has_shape(&to_chars(""), &[]));
    assert!(!has_shape(&to_chars("abc"), &[]));
}

#[test]
fn numbers_are_written_in_decimal() {
    let mut out = String::from(">");
    push_decimal(&mut out, 0);
    push_decimal(&mut out, 7);
    push_decimal(&mut out, 10);
    push_decimal(&mut out, 99);
    push_decimal(&mut out, 100);
    push_decimal(&mut out, 205);
    push_decimal(&mut out, 255);
    assert_eq!(out, ">071099100205255");
    let mut joined = String::new();
    push_decimal_string(&mut joined, &[1, 2, 30, 4]);
    assert_eq!(joined, "12304");
}

#[test]
fn decimal_check_looks_at_every_element() {
    assert!(is_all_decimal(&[]));
    assert!(is_all_decimal(&[0, 9, 5]));
    assert!(!is_all_decimal(&[0, 10, 5]));
    assert!(!is_all_decimal(&[0, 1, 255]));
}

#[test]
fn arrays_are_made_from_slices_of_their_length() {
    assert_eq!(to_array::<3>(&[1, 2, 3]), Some([1, 2, 3]));
    assert_eq!(to_array::<3>(&[1, 2]), None);
    assert_eq!(to_array::<3>(&[1, 2, 3, 4]), None);
    assert_eq!(to_array::<0>(&[]), Some([]));
}
