use digimorse::matchers::starts_with::{starts_with, Pretty, StartsWith};

#[test]
fn pretty_shows_items_as_a_list() {
    assert_eq!(Pretty(&[1, 2, 3]).to_string(), "[1, 2, 3]");
    assert_eq!(Pretty::<u8>(&[]).to_string(), "[]");
    assert_eq!(Pretty(&["a"]).to_string(), "[\"a\"]");
}

#[test]
fn matcher_describes_itself() {
    assert_eq!(StartsWith::new(vec![1, 2]).to_string(), "starting with [1, 2]");
}

#[test]
fn data_starting_with_the_items_matches() {
    let matcher: StartsWith<u8> = starts_with(vec![1, 2]);
    assert_eq!(matcher.matches(&[1, 2, 3]), Ok(()));
    assert_eq!(matcher.matches(&[1, 2]), Ok(()));
    let single: StartsWith<u8> = starts_with(7);
    assert_eq!(single.matches(&[7]), Ok(()));
}

#[test]
fn short_data_does_not_match() {
    let matcher = StartsWith::new(vec![1, 2]);
    assert_eq!(matcher.matches(&[1]), Err("[1] isn't at least 2 long".to_string()));
}

#[test]
fn different_data_does_not_match() {
    let matcher = StartsWith::new(vec![1, 2]);
    assert_eq!(matcher.matches(&[1, 3, 4]), Err("[1, 3, 4] does not contain 2 at index 1".to_string()));
}

#[test]
fn mismatch_at_a_two_digit_index() {
    let items: Vec<u8> = (0..12).collect();
    let mut data = items.clone();
    data[10] = 99;
    let matcher = StartsWith::new(items);
    assert_eq!(
        matcher.matches(&data),
        Err("[0, 1, 2, 3, 4, 5, 6, 7, 8, 9, 99, 11] does not contain 10 at index 10".to_string())
    );
    let short = StartsWith::new((0..12).collect::<Vec<u8>>());
    assert_eq!(short.matches(&[0]), Err("[0] isn't at least 12 long".to_string()));
}

#[test]
fn empty_items_match_anything() {
    let matcher: StartsWith<u8> = StartsWith::new(vec![]);
    assert_eq!(matcher.matches(&[]), Ok(()));
    assert_eq!(matcher.matches(&[5]), Ok(()));
}
