use validbr::append::ArrayAppend;

#[test]
fn append_adds_one_element_at_the_end() {
    assert_eq!([1u8, 2, 3].append(4), vec![1, 2, 3, 4]);
    let empty: [u8; 0] = [];
    assert_eq!(empty.append(7), vec![7]);
}

#[test]
fn append_array_keeps_both_in_order() {
    assert_eq!([1u8, 2, 3].append_array([4, 5]), vec![1, 2, 3, 4, 5]);
    let empty: [u8; 0] = [];
    assert_eq!(empty.append_array([4u8, 5]), vec![4, 5]);
    assert_eq!([4u8, 5].append_array(empty), vec![4, 5]);
}

#[test]
fn append_works_on_elements_that_are_cloned() {
    let words = [String::from("a"), String::from("b")];
    assert_eq!(
        words.append(String::from("c")),
        vec![String::from("a"), String::from("b"), String::from("c")]
    );
}
