use paris_transit::paris_time::{paris_time_outcome, to_paris_time};

#[test]
fn winter_time_is_utc_plus_one() {
    assert_eq!(to_paris_time(Some("2024-01-15T12:00:00Z")), Ok(Some("13:00:00".to_string())));
}

#[test]
fn summer_time_is_utc_plus_two() {
    assert_eq!(to_paris_time(Some("2024-07-01T12:34:56.789+00:00")), Ok(Some("14:34:56".to_string())));
}

#[test]
fn offsets_are_taken_into_account() {
    assert_eq!(to_paris_time(Some("2024-07-01T23:30:00-02:00")), Ok(Some("03:30:00".to_string())));
}

#[test]
fn non_string_values_give_nothing() {
    assert_eq!(to_paris_time(None), Ok(None));
}

#[test]
fn unparsable_dates_are_errors() {
    let e = to_paris_time(Some("not a date")).unwrap_err();
    assert!(e.starts_with("could not parse date not a date: "));
    assert!(e.len() > "could not parse date not a date: ".len());
}

#[test]
fn outcome_of_a_clock_time() {
    assert_eq!(paris_time_outcome("x", Ok("01:02:03".to_string())), Ok(Some("01:02:03".to_string())));
}

#[test]
fn outcome_of_a_parse_error() {
    assert_eq!(
        paris_time_outcome("2024", Err("premature end of input".to_string())),
        Err("could not parse date 2024: premature end of input".to_string())
    );
}
