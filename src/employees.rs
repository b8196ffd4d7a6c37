//! Employees and the shifts they worked.

use crate::date::Date;
use vstd::prelude::*;

verus! {

/// One worked period: whole hours on the date of one date column.
#[derive(Clone, Copy, Debug, PartialEq, Eq, Structural)]
pub struct Shift {
    /// The date column the hours were read from.
    pub col: usize,
    /// Worked time in whole hours.
    pub hours: i64,
    pub date: Date,
}

impl Shift {
    /// The worked time of this shift, in hours.
    pub fn sum_of_shift(&self) -> (r: i64)
        ensures
            r == self.hours,
    {
        self.hours
    }
}

/// The sum of the hours of `shifts`.
pub open spec fn total_hours(shifts: Seq<Shift>) -> int
    decreases shifts.len(),
{
    if shifts.len() == 0 {
        0
    } else {
        total_hours(shifts.drop_last()) + shifts.last().hours
    }
}

/// The hours of all `shifts` added up.
pub fn sum_of_hours(shifts: Vec<Shift>) -> (r: i128)
    ensures
        r == total_hours(shifts@),
{
    let mut sum: i128 = 0;
    let mut i: usize = 0;
    while i < shifts.len()
        invariant
            0 <= i <= shifts@.len(),
            sum == total_hours(shifts@.take(i as int)),
            -(i as int) * 0x8000_0000_0000_0000 <= sum <= (i as int) * 0x8000_0000_0000_0000,
        decreases shifts@.len() - i,
    {
        proof {
            assert(shifts@.take(i + 1).drop_last() =~= shifts@.take(i as int));
        }
        sum = sum + shifts[i].hours as i128;
        i = i + 1;
    }
    proof {
        assert(shifts@.take(i as int) =~= shifts@);
    }
    sum
}

/// One payroll subject with the shifts read from its row.
#[derive(Clone, Debug)]
pub struct Employee {
    pub id: String,
    pub hours: Vec<Shift>,
    pub overtime_schedule: String,
    pub dist_code: String,
    pub exp_account: String,
}

/// What an `Employee` holds, as values.
pub struct EmployeeView {
    pub id: Seq<char>,
    pub hours: Seq<Shift>,
    pub overtime_schedule: Seq<char>,
    pub dist_code: Seq<char>,
    pub exp_account: Seq<char>,
}

impl View for Employee {
    type V = EmployeeView;

    open spec fn view(&self) -> EmployeeView {
        EmployeeView {
            id: self.id@,
            hours: self.hours@,
            overtime_schedule: self.overtime_schedule@,
            dist_code: self.dist_code@,
            exp_account: self.exp_account@,
        }
    }
}

/// A new employee: the given id, no shifts, empty metadata.
pub open spec fn new_employee(id: Seq<char>) -> EmployeeView {
    EmployeeView {
        id,
        hours: Seq::empty(),
        overtime_schedule: Seq::empty(),
        dist_code: Seq::empty(),
        exp_account: Seq::empty(),
    }
}

impl Employee {
    /// An employee with the id `id`, no shifts and empty metadata.
    pub fn new(id: String) -> (r: Self)
        ensures
            r@ == new_employee(id@),
    {
        Self {
            id,
            hours: Vec::new(),
            overtime_schedule: String::new(),
            dist_code: String::new(),
            exp_account: String::new(),
        }
    }
}

} // verus!
