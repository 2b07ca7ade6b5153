use perception::util::{find_maximum_value_and_index, find_minimum_value_and_index};

#[test]
fn minimum_of_single_value() {
    assert_eq!(find_minimum_value_and_index(&[42]), (42, 0));
}

#[test]
fn minimum_is_found_with_its_index() {
    assert_eq!(find_minimum_value_and_index(&[9, 4, 7, 1, 8]), (1, 3));
}

#[test]
fn minimum_reports_first_of_equal_values() {
    assert_eq!(find_minimum_value_and_index(&[3, 1, 2, 1, 1]), (1, 1));
}

#[test]
fn maximum_of_single_value() {
    assert_eq!(find_maximum_value_and_index(&[42]), (42, 0));
}

#[test]
fn maximum_is_found_with_its_index() {
    assert_eq!(find_maximum_value_and_index(&[9, 4, 17, 1, 8]), (17, 2));
}

#[test]
fn maximum_reports_last_of_equal_values() {
    assert_eq!(find_maximum_value_and_index(&[3, 5, 5, 1, 5, 0]), (5, 4));
}

#[test]
fn extremes_of_constant_values() {
    assert_eq!(find_minimum_value_and_index(&[6, 6, 6]), (6, 0));
    assert_eq!(find_maximum_value_and_index(&[6, 6, 6]), (6, 2));
}

#[test]
fn extremes_at_the_limits_of_the_type() {
    assert_eq!(find_minimum_value_and_index(&[u32::MAX, 0, u32::MAX]), (0, 1));
    assert_eq!(find_maximum_value_and_index(&[0, u32::MAX, 0]), (u32::MAX, 1));
}
