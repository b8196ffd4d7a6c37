//! The timecard grid: cells, the range of date columns inferred from it, and
//! the employees read from its rows.

use crate::date::{date_from_serial, day_after, fits_i64, serial_day, Date};
use crate::employees::{new_employee, Employee, EmployeeView, Shift};
use crate::error::ExcelError;
use vstd::prelude::*;

verus! {

/// What the extraction reads of a number cell: its value rounded to the
/// nearest integer, whether it is above zero, and the whole hours in that
/// many days (the value times 24, truncated).
#[derive(Clone, Copy, Debug, PartialEq, Eq, Structural)]
pub struct FloatCell {
    pub rounded: i64,
    pub positive: bool,
    pub day_hours: i64,
}

/// The value of one cell of the grid.
#[derive(Clone, Debug)]
pub enum Cell {
    Text(String),
    Int(i64),
    Float(FloatCell),
    Empty,
}

/// A populated cell and its place in the grid.
#[derive(Clone, Debug)]
pub struct GridCell {
    pub row: usize,
    pub col: usize,
    pub cell: Cell,
}

/// The block of columns that holds one calendar day each, from `head` to
/// `tail` inclusive, with the dates of its first and last column.
#[derive(Clone, Copy, Debug, PartialEq, Eq, Structural)]
pub struct DateColumnRange {
    /// The row the dates were found on.
    pub row: Option<usize>,
    /// How many dates `next` has handed out.
    pub index: usize,
    pub head: usize,
    pub tail: usize,
    pub start: Option<Date>,
    pub end: Option<Date>,
}

/// A range with nothing found yet.
pub open spec fn empty_range() -> DateColumnRange {
    DateColumnRange { row: None, index: 0, head: 0, tail: 0, start: None, end: None }
}

/// The range inferred from the cells `cells`, visited in order: the first
/// row holding a number becomes the date row, its first number gives `head`
/// and `start`, each later number on that row gives `tail` and `end`.
/// Numbers are read as spreadsheet serial dates.
pub open spec fn inferred_range(cells: Seq<GridCell>) -> DateColumnRange
    decreases cells.len(),
{
    if cells.len() == 0 {
        empty_range()
    } else {
        let r = inferred_range(cells.drop_last());
        let g = cells.last();
        match g.cell {
            Cell::Float(f) => {
                let date = if fits_i64(serial_day(f.rounded as int)) {
                    Some(Date { day: serial_day(f.rounded as int) as i64 })
                } else {
                    None
                };
                if r.row.is_none() {
                    DateColumnRange { row: Some(g.row), head: g.col, tail: g.col, start: date, ..r }
                } else if r.row == Some(g.row) {
                    DateColumnRange { tail: g.col, end: date, ..r }
                } else {
                    r
                }
            },
            _ => r,
        }
    }
}

/// Some cell of `cells` holds a number.
pub open spec fn has_float(cells: Seq<GridCell>) -> bool {
    exists|i: int| 0 <= i < cells.len() && (#[trigger] cells[i]).cell is Float
}

impl DateColumnRange {
    /// A range with nothing found yet.
    pub fn new() -> (r: Self)
        ensures
            r == empty_range(),
    {
        Self { row: None, index: 0, head: 0, tail: 0, start: None, end: None }
    }

    /// Both dates are known.
    pub open spec fn is_resolved(self) -> bool {
        self.start.is_some() && self.end.is_some()
    }

    /// `col` lies in a resolved range.
    pub open spec fn spec_in_range(self, col: int) -> bool {
        self.is_resolved() && self.head <= col <= self.tail
    }

    /// The date of column `col`: `start` plus `col - head` days.
    pub open spec fn column_date(self, col: int) -> Option<Date> {
        if self.spec_in_range(col) {
            day_after(self.start.unwrap().day as int, col - self.head)
        } else {
            None
        }
    }

    /// The first and last date, where both are known.
    pub fn range(&self) -> (r: Option<(Date, Date)>)
        ensures
            r == (if self.is_resolved() {
                Some((self.start.unwrap(), self.end.unwrap()))
            } else {
                None
            }),
    {
        match (self.start, self.end) {
            (Some(start), Some(end)) => Some((start, end)),
            _ => None,
        }
    }

    /// Whether column `col` lies in the range; never in an unresolved one.
    pub fn in_range(&self, col: usize) -> (r: bool)
        ensures
            r == self.spec_in_range(col as int),
    {
        if self.range().is_none() {
            return false;
        }
        self.head <= col && col <= self.tail
    }

    /// The date of column `col`: `start` plus `col - head` days; `None`
    /// outside the range or where the day number would not fit in an `i64`.
    pub fn date_from_column(&self, col: usize) -> (r: Option<Date>)
        ensures
            r == self.column_date(col as int),
    {
        if !self.in_range(col) {
            return None;
        }
        match self.start {
            Some(start) => {
                let day: i128 = start.day as i128 + (col - self.head) as i128;
                if i64::MIN as i128 <= day && day <= i64::MAX as i128 {
                    Some(Date { day: day as i64 })
                } else {
                    None
                }
            },
            None => None,
        }
    }

    /// The number of columns after `head` up to `tail`.
    pub fn len(&self) -> (r: usize)
        requires
            self.head <= self.tail,
        ensures
            r == self.tail - self.head,
    {
        self.tail - self.head
    }

    /// The date of the next column not yet handed out, from `head` on, or
    /// `None` once past `tail`; only a date handed out moves the position.
    pub fn next(&mut self) -> (r: Option<Date>)
        ensures
            r == (if old(self).index + old(self).head < usize::MAX {
                old(self).column_date(old(self).index + old(self).head)
            } else {
                None
            }),
            *final(self) == (if r.is_some() {
                DateColumnRange { index: (old(self).index + 1) as usize, ..*old(self) }
            } else {
                *old(self)
            }),
    {
        if self.index >= usize::MAX - self.head {
            return None;
        }
        let date = self.date_from_column(self.index + self.head);
        if date.is_some() {
            self.index = self.index + 1;
        }
        date
    }
}

/// Finds the block of date columns in `cells`, visited in order (see
/// `inferred_range`). Fails where no cell holds a number, so no row of dates
/// exists.
pub fn parse_date_range(cells: &Vec<GridCell>) -> (r: Result<DateColumnRange, ExcelError>)
    ensures
        match r {
            Ok(range) => has_float(cells@) && range == inferred_range(cells@),
            Err(e) => !has_float(cells@) && e == ExcelError::UnresolvedDateRange,
        },
{
    let mut date_range = DateColumnRange::new();
    let mut i: usize = 0;
    while i < cells.len()
        invariant
            0 <= i <= cells@.len(),
            date_range == inferred_range(cells@.take(i as int)),
            date_range.row.is_some() == has_float(cells@.take(i as int)),
        decreases cells@.len() - i,
    {
        let g = &cells[i];
        proof {
            assert(cells@.take(i + 1).drop_last() =~= cells@.take(i as int));
            assert(cells@.take(i + 1).last() == cells@[i as int]);
        }
        if let Cell::Float(f) = &g.cell {
            let date = date_from_serial(f.rounded);
            if date_range.row.is_none() {
                date_range.row = Some(g.row);
                date_range.head = g.col;
                date_range.tail = g.col;
                date_range.start = date;
            } else if date_range.row == Some(g.row) {
                date_range.tail = g.col;
                date_range.end = date;
            }
            proof {
                assert(cells@.take(i + 1)[i as int] == cells@[i as int]);
            }
        } else {
            proof {
                if has_float(cells@.take(i + 1)) {
                    let j = choose|j: int| 0 <= j < i + 1 && (#[trigger] cells@.take(i + 1)[j]).cell is Float;
                    assert(cells@.take(i as int)[j] == cells@.take(i + 1)[j]);
                }
            }
        }
        i = i + 1;
    }
    proof {
        assert(cells@.take(i as int) =~= cells@);
    }
    if date_range.row.is_none() {
        return Err(ExcelError::UnresolvedDateRange);
    }
    Ok(date_range)
}

/// The character of the decimal digit `d`.
pub open spec fn digit_char(d: int) -> char {
    ((d + '0' as int) as u8) as char
}

/// The decimal digits of `n`, without leading zeros (`0` for zero).
pub open spec fn nat_digits(n: nat) -> Seq<char>
    decreases n,
{
    if n < 10 {
        seq![digit_char(n as int)]
    } else {
        nat_digits(n / 10).push(digit_char((n % 10) as int))
    }
}

/// `n` in decimal, with a leading `-` when negative.
pub open spec fn decimal(n: int) -> Seq<char> {
    if n < 0 {
        seq!['-'] + nat_digits((-n) as nat)
    } else {
        nat_digits(n as nat)
    }
}

/// `n` written in decimal, with a leading `-` when negative.
pub fn decimal_text(n: i64) -> (r: String)
    ensures
        r@ == decimal(n as int),
{
    let ghost total: nat = if n < 0 { (-n) as nat } else { n as nat };
    let mut m: u64 = if n < 0 { (-(n as i128)) as u64 } else { n as u64 };
    let mut digits: Vec<char> = Vec::new();
    proof {
        assert(digits@.reverse() =~= Seq::<char>::empty());
        assert(nat_digits(total) =~= nat_digits(m as nat) + digits@.reverse());
    }
    loop
        invariant_except_break
            nat_digits(total) == nat_digits(m as nat) + digits@.reverse(),
        ensures
            nat_digits(total) == digits@.reverse(),
        decreases m,
    {
        let d = (m % 10) as u8;
        let c = (d + '0' as u8) as char;
        assert(c == digit_char((m % 10) as int));
        digits.push(c);
        proof {
            assert(digits@.reverse() =~= seq![c] + digits@.drop_last().reverse());
        }
        if m < 10 {
            proof {
                assert(nat_digits(m as nat) =~= seq![c]);
            }
            break;
        }
        let ghost prev: nat = m as nat;
        m = m / 10;
        proof {
            assert(nat_digits(prev) == nat_digits(m as nat).push(c));
            assert(nat_digits(m as nat).push(c) + digits@.drop_last().reverse()
                =~= nat_digits(m as nat) + digits@.reverse());
        }
    }
    let mut r = String::new();
    if n < 0 {
        r.push('-');
    }
    let ghost sign: Seq<char> = if n < 0 { seq!['-'] } else { Seq::empty() };
    let len = digits.len();
    let mut k: usize = 0;
    while k < len
        invariant
            len == digits@.len(),
            0 <= k <= len,
            r@ == sign + digits@.reverse().take(k as int),
        decreases len - k,
    {
        r.push(digits[len - 1 - k]);
        proof {
            assert(digits@.reverse()[k as int] == digits@[len - 1 - k]);
            assert(sign + digits@.reverse().take(k + 1) =~= (sign + digits@.reverse().take(
                k as int,
            )).push(digits@[len - 1 - k]));
        }
        k = k + 1;
    }
    proof {
        assert(digits@.reverse().take(len as int) =~= digits@.reverse());
    }
    r
}

/// The text a cell gives a metadata field: text as it stands, an integer in
/// decimal, a number rounded to the nearest integer and then in decimal;
/// nothing for an empty cell.
pub open spec fn cell_text(cell: Cell) -> Option<Seq<char>> {
    match cell {
        Cell::Text(t) => Some(t@),
        Cell::Int(i) => Some(decimal(i as int)),
        Cell::Float(f) => Some(decimal(f.rounded as int)),
        Cell::Empty => None,
    }
}

/// The text a cell gives a metadata field (see `cell_text`).
pub fn coerce_cell(cell: &Cell) -> (r: Option<String>)
    ensures
        match r {
            Some(t) => cell_text(*cell) == Some(t@),
            None => cell_text(*cell).is_none(),
        },
{
    match cell {
        Cell::Text(t) => Some(t.clone()),
        Cell::Int(i) => Some(decimal_text(*i)),
        Cell::Float(f) => Some(decimal_text(f.rounded)),
        Cell::Empty => None,
    }
}

/// `e` with the metadata field of column `col` (1: overtime schedule,
/// 2: distribution code, 3: expense account) set to `v`; other columns
/// leave it as it is.
pub open spec fn with_field(e: EmployeeView, col: int, v: Seq<char>) -> EmployeeView {
    if col == 1 {
        EmployeeView { overtime_schedule: v, ..e }
    } else if col == 2 {
        EmployeeView { dist_code: v, ..e }
    } else if col == 3 {
        EmployeeView { exp_account: v, ..e }
    } else {
        e
    }
}

/// The shift that a cell records: a number above zero in a column of the
/// range, worked on that column's date for the cell's whole hours.
pub open spec fn cell_shift(g: GridCell, range: DateColumnRange) -> Option<Shift> {
    match g.cell {
        Cell::Float(f) => if f.positive && range.column_date(g.col as int).is_some() {
            Some(Shift { col: g.col, hours: f.day_hours, date: range.column_date(g.col as int).unwrap() })
        } else {
            None
        },
        _ => None,
    }
}

/// Employee `e` after reading cell `g` of its row.
pub open spec fn read_cell(e: EmployeeView, g: GridCell, range: DateColumnRange) -> EmployeeView {
    let e1 = match cell_shift(g, range) {
        Some(s) => EmployeeView { hours: e.hours.push(s), ..e },
        None => e,
    };
    match cell_text(g.cell) {
        Some(v) => with_field(e1, g.col as int, v),
        None => e1,
    }
}

fn apply_cell(e: &mut Employee, g: &GridCell, range: &DateColumnRange)
    ensures
        final(e)@ == read_cell(old(e)@, *g, *range),
{
    if let Cell::Float(f) = &g.cell {
        if f.positive {
            if let Some(date) = range.date_from_column(g.col) {
                e.hours.push(Shift { col: g.col, hours: f.day_hours, date });
            }
        }
    }
    if 1 <= g.col && g.col <= 3 {
        if let Some(v) = coerce_cell(&g.cell) {
            if g.col == 1 {
                e.overtime_schedule = v;
            } else if g.col == 2 {
                e.dist_code = v;
            } else {
                e.exp_account = v;
            }
        }
    }
}

/// The place of the employee of row `row` among `found` (the last one with
/// that row).
pub open spec fn row_index(found: Seq<(usize, EmployeeView)>, row: usize) -> Option<int>
    decreases found.len(),
{
    if found.len() == 0 {
        None
    } else if found.last().0 == row {
        Some(found.len() - 1)
    } else {
        row_index(found.drop_last(), row)
    }
}

proof fn lemma_row_index(found: Seq<(usize, EmployeeView)>, row: usize)
    ensures
        match row_index(found, row) {
            Some(j) => 0 <= j < found.len() && found[j].0 == row,
            None => forall|k: int| 0 <= k < found.len() ==> (#[trigger] found[k]).0 != row,
        },
    decreases found.len(),
{
    if found.len() > 0 && found.last().0 != row {
        lemma_row_index(found.drop_last(), row);
        if row_index(found, row).is_none() {
            assert forall|k: int| 0 <= k < found.len() implies (#[trigger] found[k]).0 != row by {
                if k < found.len() - 1 {
                    assert(found.drop_last()[k] == found[k]);
                }
            }
        }
    }
}

/// The employees read from `cells`, visited in order, each with its row, in
/// the order they were found. A text cell in column 0 of a row with no
/// employee yet starts one with that text as id; every cell of a row is
/// then read into that row's employee (see `read_cell`). Cells of a row
/// met before its id cell are not read.
pub open spec fn extracted(cells: Seq<GridCell>, range: DateColumnRange) -> Seq<(usize, EmployeeView)>
    decreases cells.len(),
{
    if cells.len() == 0 {
        Seq::empty()
    } else {
        let found = extracted(cells.drop_last(), range);
        let g = cells.last();
        let found1 = match g.cell {
            Cell::Text(t) => if g.col == 0 && row_index(found, g.row).is_none() {
                found.push((g.row, new_employee(t@)))
            } else {
                found
            },
            _ => found,
        };
        match row_index(found1, g.row) {
            Some(j) => found1.update(j, (g.row, read_cell(found1[j].1, g, range))),
            None => found1,
        }
    }
}

fn find_row(rows: &Vec<usize>, row: usize) -> (r: Option<usize>)
    ensures
        match r {
            Some(j) => j < rows@.len() && rows@[j as int] == row,
            None => forall|k: int| 0 <= k < rows@.len() ==> rows@[k] != row,
        },
{
    let mut j: usize = 0;
    while j < rows.len()
        invariant
            0 <= j <= rows@.len(),
            forall|k: int| 0 <= k < j ==> rows@[k] != row,
        decreases rows@.len() - j,
    {
        if rows[j] == row {
            return Some(j);
        }
        j = j + 1;
    }
    None
}

/// The employees of the grid `cells`, visited in order, with the shifts
/// their rows record in the date columns of `date_range` (see `extracted`).
/// One employee per row that has a text cell in column 0.
pub fn parse_worksheet(cells: &Vec<GridCell>, date_range: DateColumnRange) -> (r: Vec<Employee>)
    ensures
        r@.len() == extracted(cells@, date_range).len(),
        forall|k: int| 0 <= k < r@.len() ==> #[trigger] r@[k]@ == extracted(cells@, date_range)[k].1,
{
    let mut rows: Vec<usize> = Vec::new();
    let mut employees: Vec<Employee> = Vec::new();
    let mut i: usize = 0;
    while i < cells.len()
        invariant
            0 <= i <= cells@.len(),
            rows@.len() == employees@.len(),
            rows@.len() == extracted(cells@.take(i as int), date_range).len(),
            forall|k: int| 0 <= k < rows@.len() ==> #[trigger] rows@[k] == extracted(cells@.take(i as int), date_range)[k].0,
            forall|k: int| 0 <= k < rows@.len() ==> #[trigger] employees@[k]@ == extracted(cells@.take(i as int), date_range)[k].1,
            forall|a: int, b: int| 0 <= a < b < rows@.len() ==> rows@[a] != rows@[b],
        decreases cells@.len() - i,
    {
        let g = &cells[i];
        let ghost found = extracted(cells@.take(i as int), date_range);
        proof {
            assert(cells@.take(i + 1).drop_last() =~= cells@.take(i as int));
            assert(cells@.take(i + 1).last() == cells@[i as int]);
        }
        let mut pos = find_row(&rows, g.row);
        proof {
            lemma_row_index(found, g.row);
            if row_index(found, g.row).is_some() {
                let c = row_index(found, g.row).unwrap();
                assert(rows@[c] == g.row);
            }
            if pos.is_some() {
                assert(found[pos.unwrap() as int].0 == g.row);
            }
            assert(pos.is_none() == row_index(found, g.row).is_none());
        }
        let ghost found1 = found;
        if pos.is_none() && g.col == 0 {
            if let Cell::Text(t) = &g.cell {
                rows.push(g.row);
                employees.push(Employee::new(t.clone()));
                pos = Some(rows.len() - 1);
                proof {
                    found1 = found.push((g.row, new_employee(t@)));
                }
            }
        }
        proof {
            assert(forall|k: int| 0 <= k < rows@.len() ==> #[trigger] rows@[k] == found1[k].0);
            assert(forall|k: int| 0 <= k < rows@.len() ==> #[trigger] employees@[k]@ == found1[k].1);
            lemma_row_index(found1, g.row);
            match pos {
                Some(j) => {
                    assert(found1[j as int].0 == g.row);
                    let c = row_index(found1, g.row).unwrap();
                    assert(rows@[c] == g.row);
                    assert(c == j);
                },
                None => {
                    assert(rows@.len() == found1.len());
                    if row_index(found1, g.row).is_some() {
                        let c = row_index(found1, g.row).unwrap();
                        assert(rows@[c] == g.row);
                    }
                },
            }
        }
        if let Some(j) = pos {
            let mut e = employees.remove(j);
            apply_cell(&mut e, g, &date_range);
            employees.insert(j, e);
        }
        proof {
            let next = extracted(cells@.take(i + 1), date_range);
            assert(rows@.len() == next.len());
            assert forall|k: int| 0 <= k < rows@.len() implies #[trigger] employees@[k]@ == next[k].1 by {
                if pos.is_some() && k == pos.unwrap() as int {
                } else {
                    assert(employees@[k]@ == found1[k].1);
                }
            }
            assert forall|k: int| 0 <= k < rows@.len() implies #[trigger] rows@[k] == next[k].0 by {
                assert(rows@[k] == found1[k].0);
            }
        }
        i = i + 1;
    }
    proof {
        assert(cells@.take(i as int) =~= cells@);
    }
    employees
}

/// Some cell of `cells` on row `row` is a number above zero in a column of
/// `range` and records the shift `s`.
pub open spec fn recorded_by(cells: Seq<GridCell>, range: DateColumnRange, row: usize, s: Shift) -> bool {
    exists|i: int|
        0 <= i < cells.len() && (#[trigger] cells[i]).row == row && cells[i].cell is Float
            && cells[i].cell->Float_0.positive && cell_shift(cells[i], range) == Some(s)
}

/// Extraction records a shift only for a number above zero in a column of
/// the range, on that cell's row: a cell holding zero or less gives none.
pub proof fn lemma_shifts_from_positive_cells(cells: Seq<GridCell>, range: DateColumnRange)
    ensures
        forall|k: int, m: int|
            0 <= k < extracted(cells, range).len() && 0 <= m < extracted(cells, range)[k].1.hours.len()
                ==> recorded_by(cells, range, extracted(cells, range)[k].0,
                #[trigger] extracted(cells, range)[k].1.hours[m]),
    decreases cells.len(),
{
    if cells.len() > 0 {
        let pre = cells.drop_last();
        lemma_shifts_from_positive_cells(pre, range);
        let found = extracted(pre, range);
        let g = cells.last();
        let found1 = match g.cell {
            Cell::Text(t) => if g.col == 0 && row_index(found, g.row).is_none() {
                found.push((g.row, new_employee(t@)))
            } else {
                found
            },
            _ => found,
        };
        lemma_row_index(found1, g.row);
        let next = extracted(cells, range);
        assert forall|k: int, m: int|
            0 <= k < next.len() && 0 <= m < next[k].1.hours.len() implies recorded_by(cells, range,
            next[k].0, #[trigger] next[k].1.hours[m]) by {
            let sh = next[k].1.hours[m];
            if k < found.len() && m < found[k].1.hours.len() && sh == found[k].1.hours[m] && next[k].0 == found[k].0 {
                let i = choose|i: int|
                    0 <= i < pre.len() && (#[trigger] pre[i]).row == found[k].0 && pre[i].cell is Float
                        && pre[i].cell->Float_0.positive && cell_shift(pre[i], range) == Some(sh);
                assert(cells[i] == pre[i]);
            } else {
                let last = cells.len() - 1;
                assert(cells[last] == g);
                assert(cell_shift(g, range) == Some(sh));
            }
        }
    }
}

} // verus!
