use blindtally::election::Candidate;
use blindtally::text::{append_decimal, decimal_string, result_line, tally_summary};

#[test]
fn decimal_writes_numbers_without_leading_zeros() {
    assert_eq!(decimal_string(0), "0");
    assert_eq!(decimal_string(7), "7");
    assert_eq!(decimal_string(10), "10");
    assert_eq!(decimal_string(1234567890), "1234567890");
    assert_eq!(decimal_string(u64::MAX), u64::MAX.to_string());
    let mut s = String::from("n=");
    append_decimal(&mut s, 305);
    assert_eq!(s, "n=305");
}

#[test]
fn tally_summary_reports_the_number_of_ballots() {
    assert_eq!(tally_summary(3), "tallied 3 ballots");
    assert_eq!(tally_summary(0), "tallied 0 ballots");
}

#[test]
fn result_line_shows_name_and_count() {
    assert_eq!(result_line(Candidate::Alice, 2), "Alice: 2 votes");
    assert_eq!(result_line(Candidate::Bob, 1), "Bob: 1 votes");
    assert_eq!(result_line(Candidate::Bob, u32::MAX), "Bob: 4294967295 votes");
}
