use timecards::date::{date_from_serial, Date};
use timecards::employees::{sum_of_hours, Employee, Shift};
use timecards::error::ExcelError;
use timecards::sage::generate;
use timecards::timecards::{
    coerce_cell, decimal_text, parse_date_range, parse_worksheet, Cell, DateColumnRange, FloatCell,
    GridCell,
};

fn number(f: f64) -> Cell {
    Cell::Float(FloatCell { rounded: f.round() as i64, positive: f > 0.0, day_hours: (24.0 * f) as i64 })
}

fn at(row: usize, col: usize, cell: Cell) -> GridCell {
    GridCell { row, col, cell }
}

fn text(s: &str) -> Cell {
    Cell::Text(s.to_string())
}

fn iso(d: Option<Date>) -> String {
    d.unwrap().iso_text().unwrap()
}

#[test]
fn infers_the_date_block() {
    let mut cells = vec![at(0, 0, text("Employee")), at(0, 1, text("OT"))];
    for (i, col) in (5..=10).enumerate() {
        cells.push(at(0, col, number(44318.0 + i as f64)));
    }
    cells.push(at(1, 0, text("E1")));
    cells.push(at(1, 5, number(0.5)));
    let range = parse_date_range(&cells).unwrap();
    assert_eq!(range.row, Some(0));
    assert_eq!(range.head, 5);
    assert_eq!(range.tail, 10);
    assert_eq!(iso(range.start), "2021-05-02");
    assert_eq!(iso(range.end), "2021-05-07");
    assert_eq!(range.end, range.start.unwrap().add_days(5));
    assert_eq!(range.len(), 5);
}

#[test]
fn no_numbers_means_no_range() {
    let cells = vec![at(0, 0, text("E1")), at(0, 1, Cell::Int(4)), at(1, 2, Cell::Empty)];
    assert_eq!(parse_date_range(&cells), Err(ExcelError::UnresolvedDateRange));
    assert_eq!(parse_date_range(&Vec::new()), Err(ExcelError::UnresolvedDateRange));
}

#[test]
fn one_date_leaves_the_range_unresolved() {
    let cells = vec![at(2, 4, number(44197.0)), at(3, 5, number(44198.0))];
    let range = parse_date_range(&cells).unwrap();
    assert_eq!(range.head, 4);
    assert_eq!(range.tail, 4);
    assert!(range.start.is_some());
    assert_eq!(range.end, None);
    assert_eq!(range.range(), None);
    assert!(!range.in_range(4));
}

#[test]
fn columns_map_to_dates() {
    let start = date_from_serial(44197);
    let mut range = DateColumnRange { row: Some(0), index: 0, head: 4, tail: 6, start, end: date_from_serial(44199) };
    assert!(range.in_range(4) && range.in_range(6));
    assert!(!range.in_range(3) && !range.in_range(7));
    assert_eq!(iso(range.date_from_column(5)), "2021-01-02");
    assert_eq!(range.date_from_column(7), None);
    let mut seen = Vec::new();
    while let Some(d) = range.next() {
        seen.push(d.iso_text().unwrap());
    }
    assert_eq!(seen, vec!["2021-01-01", "2021-01-02", "2021-01-03"]);
    assert_eq!(range.index, 3);
    assert_eq!(DateColumnRange::new().range(), None);
}

#[test]
fn metadata_cells_become_text() {
    assert_eq!(coerce_cell(&number(2.6)), Some("3".to_string()));
    assert_eq!(coerce_cell(&Cell::Int(2)), Some("2".to_string()));
    assert_eq!(coerce_cell(&text("X")), Some("X".to_string()));
    assert_eq!(coerce_cell(&Cell::Empty), None);
    let cells = vec![
        at(3, 0, text("E7")),
        at(3, 1, number(2.6)),
        at(3, 2, Cell::Int(2)),
        at(3, 3, text("X")),
    ];
    let range = DateColumnRange::new();
    let employees = parse_worksheet(&cells, range);
    assert_eq!(employees.len(), 1);
    assert_eq!(employees[0].overtime_schedule, "3");
    assert_eq!(employees[0].dist_code, "2");
    assert_eq!(employees[0].exp_account, "X");
}

#[test]
fn decimal_text_of_integers() {
    assert_eq!(decimal_text(0), "0");
    assert_eq!(decimal_text(1234), "1234");
    assert_eq!(decimal_text(-45), "-45");
    assert_eq!(decimal_text(i64::MIN), "-9223372036854775808");
}

fn week_range() -> DateColumnRange {
    DateColumnRange {
        row: Some(0),
        index: 0,
        head: 4,
        tail: 6,
        start: date_from_serial(44197),
        end: date_from_serial(44199),
    }
}

#[test]
fn non_positive_cells_give_no_shift() {
    let cells = vec![
        at(1, 0, text("E1")),
        at(1, 4, number(0.0)),
        at(1, 5, number(-1.0)),
        at(2, 0, text("E2")),
        at(2, 4, number(0.25)),
        at(2, 9, number(0.5)),
    ];
    let employees = parse_worksheet(&cells, week_range());
    assert_eq!(employees.len(), 2);
    assert_eq!(employees[0].id, "E1");
    assert!(employees[0].hours.is_empty());
    assert_eq!(employees[1].hours.len(), 1);
    assert_eq!(employees[1].hours[0].sum_of_shift(), 6);
    let records = generate("2021-05", employees, &week_range()).unwrap();
    assert_eq!(records.employees.len(), 1);
    assert_eq!(records.employees[0].id, "E2");
}

#[test]
fn cells_before_the_id_are_not_read() {
    let cells = vec![at(1, 1, text("early")), at(1, 4, number(1.0)), at(1, 0, text("E1")), at(1, 0, text("E9"))];
    let employees = parse_worksheet(&cells, week_range());
    assert_eq!(employees.len(), 1);
    assert_eq!(employees[0].id, "E1");
    assert_eq!(employees[0].overtime_schedule, "");
    assert!(employees[0].hours.is_empty());
}

#[test]
fn sums_hours_of_shifts() {
    let d = date_from_serial(44197).unwrap();
    let shifts = vec![Shift { col: 1, hours: 8, date: d }, Shift { col: 2, hours: 4, date: d }];
    assert_eq!(sum_of_hours(shifts), 12);
    assert_eq!(sum_of_hours(Vec::new()), 0);
    let e = Employee::new("E3".to_string());
    assert_eq!(e.id, "E3");
    assert!(e.hours.is_empty() && e.dist_code.is_empty());
}

#[test]
fn records_need_a_resolved_range() {
    let employees = vec![Employee::new("E1".to_string())];
    assert!(matches!(generate("2021-06", employees, &DateColumnRange::new()), Err(ExcelError::UnresolvedDateRange)));
}

#[test]
fn end_to_end_detail_lines() {
    let cells = vec![
        at(0, 4, number(44197.0)),
        at(0, 5, number(44198.0)),
        at(0, 6, number(44199.0)),
        at(1, 0, text("E1")),
        at(1, 1, text("OT1")),
        at(1, 2, text("D1")),
        at(1, 3, text("EXP1")),
        at(1, 4, number(0.5)),
        at(1, 5, number(1.0)),
        at(1, 6, number(0.0)),
    ];
    let range = parse_date_range(&cells).unwrap();
    let employees = parse_worksheet(&cells, range);
    let records = generate("2021-01", employees, &range).unwrap();
    assert_eq!(records.period_end.iso_text().unwrap(), "2021-01-03");
    assert_eq!(records.timecard, "2021-01");
    assert_eq!(records.employees.len(), 1);
    let e = &records.employees[0];
    assert_eq!((e.id.as_str(), e.overtime_schedule.as_str(), e.dist_code.as_str(), e.exp_account.as_str()), ("E1", "OT1", "D1", "EXP1"));
    assert_eq!(records.details.len(), 2);
    let first = records.details[0];
    let second = records.details[1];
    assert_eq!((first.employee, first.line_number, first.shift.hours), (0, 1000, 12));
    assert_eq!((second.employee, second.line_number, second.shift.hours), (0, 2000, 24));
    assert_eq!(first.shift.date.iso_text().unwrap(), "2021-01-01");
    assert_eq!(second.shift.date.iso_text().unwrap(), "2021-01-02");
}
