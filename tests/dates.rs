use timecards::date::{date_from_serial, parse_date, Date, EPOCH_DAY, LONG_DATE_FORMAT};

#[test]
fn serial_dates_count_from_the_epoch() {
    assert_eq!(date_from_serial(2), Some(Date { day: EPOCH_DAY }));
    assert_eq!(date_from_serial(2).unwrap().iso_text().unwrap(), "1900-01-01");
    assert_eq!(date_from_serial(44197).unwrap().iso_text().unwrap(), "2021-01-01");
    assert_eq!(date_from_serial(44318).unwrap().iso_text().unwrap(), "2021-05-02");
    assert_eq!(date_from_serial(i64::MAX), None);
}

#[test]
fn dates_format_and_parse() {
    let d = parse_date("January 01, 2021", LONG_DATE_FORMAT).unwrap();
    assert_eq!(d.iso_text().unwrap(), "2021-01-01");
    assert_eq!(d.long_text().unwrap(), "January 01, 2021");
    assert_eq!(d.add_days(3).unwrap().iso_text().unwrap(), "2021-01-04");
    assert_eq!(d.format("%d/%m/%Y").unwrap(), "01/01/2021");
    assert_eq!(parse_date("2021-01-01", LONG_DATE_FORMAT), None);
    assert_eq!(Date { day: i64::MAX }.iso_text(), None);
    assert_eq!(d.format("%Q"), None);
    assert_eq!(d.format("%H:%M"), None);
    assert_eq!(Date { day: i64::MAX }.add_days(1), None);
}
