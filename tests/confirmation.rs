use timecards::confirm::{Action, Confirmation, InputError, Step};
use timecards::date::date_from_serial;
use timecards::error::ExcelError;
use timecards::timecards::DateColumnRange;

fn inferred() -> DateColumnRange {
    DateColumnRange {
        row: Some(0),
        index: 0,
        head: 5,
        tail: 8,
        start: date_from_serial(44318),
        end: date_from_serial(44321),
    }
}

#[test]
fn two_yeses_keep_the_range() {
    let (mut c, a) = Confirmation::begin(inferred()).unwrap();
    assert!(matches!(a, Action::AskDates { .. }));
    match c.confirm(true) {
        Action::AskColumns { head, tail } => assert_eq!((head.as_str(), tail.as_str()), ("F", "I")),
        other => panic!("{:?}", other),
    }
    match c.confirm(true) {
        Action::Finish(range) => {
            assert_eq!(range.end, inferred().end);
            assert_eq!(range, inferred());
        },
        other => panic!("{:?}", other),
    }
    assert_eq!(c.step, Step::Done);
}

#[test]
fn corrected_start_moves_the_end() {
    let (mut c, _) = Confirmation::begin(inferred()).unwrap();
    assert!(matches!(c.confirm(false), Action::AskStart));
    assert!(matches!(c.enter("January 01, 2021"), Ok(Action::AskColumns { .. })));
    match c.confirm(true) {
        Action::AskDates { start, end } => {
            assert_eq!(start.iso_text().unwrap(), "2021-01-01");
            assert_eq!(end.iso_text().unwrap(), "2021-01-04");
        },
        other => panic!("{:?}", other),
    }
    c.confirm(true);
    match c.confirm(true) {
        Action::Finish(range) => {
            assert_eq!((range.head, range.tail), (5, 8));
            assert_eq!(range.start.unwrap().iso_text().unwrap(), "2021-01-01");
            assert_eq!(range.end.unwrap().iso_text().unwrap(), "2021-01-04");
        },
        other => panic!("{:?}", other),
    }
}

#[test]
fn corrected_columns_move_the_end() {
    let (mut c, _) = Confirmation::begin(inferred()).unwrap();
    c.confirm(true);
    assert!(matches!(c.confirm(false), Action::AskHead));
    assert!(matches!(c.enter("C"), Ok(Action::AskTail)));
    match c.enter("J") {
        Ok(Action::AskDates { start, end }) => {
            assert_eq!(start.iso_text().unwrap(), "2021-05-02");
            assert_eq!(end.iso_text().unwrap(), "2021-05-09");
        },
        other => panic!("{:?}", other),
    }
    assert_eq!((c.range.head, c.range.tail), (2, 9));
    assert_eq!(c.step, Step::ConfirmDates);
}

#[test]
fn malformed_answers_are_asked_again() {
    let (mut c, _) = Confirmation::begin(inferred()).unwrap();
    c.confirm(false);
    let before = c;
    assert!(matches!(c.enter("2021-01-01"), Err(InputError::MalformedDate)));
    assert_eq!(c, before);
    c.enter("January 01, 2021").unwrap();
    c.confirm(false);
    assert!(matches!(c.enter("123"), Err(InputError::MalformedColumn)));
    assert!(matches!(c.enter("FXSHRXX"), Err(InputError::MalformedColumn)));
    c.enter("D").unwrap();
    let before = c;
    assert!(matches!(c.enter("B"), Err(InputError::MalformedColumn)));
    assert_eq!(c, before);
}

#[test]
fn unresolved_range_cannot_be_confirmed() {
    let mut range = inferred();
    range.end = None;
    assert!(matches!(Confirmation::begin(range), Err(ExcelError::UnresolvedDateRange)));
    let mut range = inferred();
    range.tail = 2;
    assert!(matches!(Confirmation::begin(range), Err(ExcelError::UnresolvedDateRange)));
}
