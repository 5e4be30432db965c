use slice_n_dice::date::{parse_iso_date, Date};

// Mainly testing the format string is correct here.
#[test]
fn test_parse_iso_date() {
    let date = parse_iso_date("2022-01-30").unwrap();
    let expected_date = Date::new(2022, 1, 30).unwrap();
    assert_eq!(date, expected_date);
}

#[test]
fn parse_rejects_wrong_shapes() {
    assert!(parse_iso_date("").is_none());
    assert!(parse_iso_date("2022-1-30").is_none());
    assert!(parse_iso_date("2022/01/30").is_none());
    assert!(parse_iso_date("2022-01-301").is_none());
    assert!(parse_iso_date("202a-01-30").is_none());
    assert!(parse_iso_date("2022-01-3o").is_none());
}

#[test]
fn parse_rejects_impossible_days() {
    assert!(parse_iso_date("2022-13-01").is_none());
    assert!(parse_iso_date("2022-00-10").is_none());
    assert!(parse_iso_date("2022-04-31").is_none());
    assert!(parse_iso_date("2022-01-00").is_none());
}

#[test]
fn parse_knows_leap_years() {
    assert_eq!(parse_iso_date("2024-02-29"), Date::new(2024, 2, 29));
    assert!(parse_iso_date("2023-02-29").is_none());
    assert!(parse_iso_date("1900-02-29").is_none());
    assert_eq!(parse_iso_date("2000-02-29"), Date::new(2000, 2, 29));
}

#[test]
fn format_writes_padded_iso_form() {
    let d = Date::new(987, 3, 5).unwrap();
    assert_eq!(d.format_iso(), "0987-03-05");
    let d = Date::new(2024, 12, 31).unwrap();
    assert_eq!(d.format_iso(), "2024-12-31");
}

#[test]
fn format_then_parse_round_trips() {
    let d = Date::new(2022, 1, 30).unwrap();
    assert_eq!(parse_iso_date(&d.format_iso()), Some(d));
}
