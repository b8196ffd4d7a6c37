//! The records of the accounting import: one timecard header per employee
//! who worked, one detail line per shift worked.

use crate::date::Date;
use crate::employees::{total_hours, Employee, EmployeeView, Shift};
use crate::error::ExcelError;
use crate::timecards::DateColumnRange;
use vstd::prelude::*;

verus! {

/// One detail line: a worked shift of the employee at place `employee`
/// among the records' employees, numbered `line_number`.
#[derive(Clone, Copy, Debug, PartialEq, Eq, Structural)]
pub struct DetailLine {
    pub employee: usize,
    pub line_number: u128,
    pub shift: Shift,
}

/// What goes into the import sheets: the pay period's end and label, the
/// employees who worked (one header row each), and the detail lines.
#[derive(Clone, Debug)]
pub struct TimecardRecords {
    pub period_end: Date,
    pub timecard: String,
    pub employees: Vec<Employee>,
    pub details: Vec<DetailLine>,
}

/// The employees with more than zero hours in all.
pub open spec fn working(emps: Seq<EmployeeView>) -> Seq<EmployeeView>
    decreases emps.len(),
{
    if emps.len() == 0 {
        Seq::empty()
    } else if total_hours(emps.last().hours) > 0 {
        working(emps.drop_last()).push(emps.last())
    } else {
        working(emps.drop_last())
    }
}

/// The shifts with more than zero hours.
pub open spec fn worked(shifts: Seq<Shift>) -> Seq<Shift>
    decreases shifts.len(),
{
    if shifts.len() == 0 {
        Seq::empty()
    } else if shifts.last().hours > 0 {
        worked(shifts.drop_last()).push(shifts.last())
    } else {
        worked(shifts.drop_last())
    }
}

/// The detail lines of the worked shifts of the employee at place `k`,
/// numbered 1000, 2000, ...
pub open spec fn lines_of(k: int, shifts: Seq<Shift>) -> Seq<DetailLine> {
    Seq::new(
        worked(shifts).len(),
        |i: int| DetailLine { employee: k as usize, line_number: ((i + 1) * 1000) as u128, shift: worked(shifts)[i] },
    )
}

/// The detail lines of `emps`, employee after employee.
pub open spec fn detail_lines(emps: Seq<EmployeeView>) -> Seq<DetailLine>
    decreases emps.len(),
{
    if emps.len() == 0 {
        Seq::empty()
    } else {
        detail_lines(emps.drop_last()) + lines_of(emps.len() - 1, emps.last().hours)
    }
}

/// The views of `emps`.
pub open spec fn views(emps: Seq<Employee>) -> Seq<EmployeeView> {
    emps.map_values(|e: Employee| e@)
}

fn shift_lines(k: usize, shifts: &Vec<Shift>) -> (r: (Vec<DetailLine>, i128))
    ensures
        r.0@ == lines_of(k as int, shifts@),
        r.1 == total_hours(shifts@),
{
    let mut lines: Vec<DetailLine> = Vec::new();
    let mut sum: i128 = 0;
    let mut i: usize = 0;
    while i < shifts.len()
        invariant
            0 <= i <= shifts@.len(),
            lines@ == lines_of(k as int, shifts@.take(i as int)),
            sum == total_hours(shifts@.take(i as int)),
            -(i as int) * 0x8000_0000_0000_0000 <= sum <= (i as int) * 0x8000_0000_0000_0000,
            lines@.len() <= i,
        decreases shifts@.len() - i,
    {
        let s = shifts[i];
        proof {
            assert(shifts@.take(i + 1).drop_last() =~= shifts@.take(i as int));
            assert(shifts@.take(i + 1).last() == s);
        }
        sum = sum + s.hours as i128;
        if s.hours > 0 {
            let n = lines.len() as u128 + 1;
            lines.push(DetailLine { employee: k, line_number: n * 1000, shift: s });
        }
        proof {
            let pre = shifts@.take(i as int);
            let cur = shifts@.take(i + 1);
            assert(worked(cur) == if s.hours > 0 { worked(pre).push(s) } else { worked(pre) });
            assert(lines@ =~= lines_of(k as int, cur));
        }
        i = i + 1;
    }
    proof {
        assert(shifts@.take(i as int) =~= shifts@);
    }
    (lines, sum)
}

/// The import records of `employees` for the pay period `payperiod` over
/// `date_range`: the employees with more than zero hours in all, in their
/// order, and a detail line for each of their shifts with more than zero
/// hours. Fails where the range's dates are not known.
pub fn generate(payperiod: &str, employees: Vec<Employee>, date_range: &DateColumnRange) -> (r:
    Result<TimecardRecords, ExcelError>)
    ensures
        match r {
            Ok(t) => {
                &&& date_range.is_resolved()
                &&& t.period_end == date_range.end.unwrap()
                &&& t.timecard@ == payperiod@
                &&& views(t.employees@) == working(views(employees@))
                &&& t.details@ == detail_lines(working(views(employees@)))
            },
            Err(e) => !date_range.is_resolved() && e == ExcelError::UnresolvedDateRange,
        },
{
    let period_end = match date_range.range() {
        Some((_, end)) => end,
        None => {
            return Err(ExcelError::UnresolvedDateRange);
        },
    };
    let ghost all = views(employees@);
    let mut rest = employees;
    let mut kept: Vec<Employee> = Vec::new();
    let mut details: Vec<DetailLine> = Vec::new();
    let mut i: usize = 0;
    let n = rest.len();
    while rest.len() > 0
        invariant
            all.len() == n,
            i <= n,
            i + rest@.len() == n,
            views(rest@) == all.skip(i as int),
            views(kept@) == working(all.take(i as int)),
            details@ == detail_lines(working(all.take(i as int))),
        decreases rest@.len(),
    {
        let ghost before = rest@;
        let e = rest.remove(0);
        proof {
            assert forall|j: int| 0 <= j < rest@.len() implies views(rest@)[j] == all.skip(i + 1)[j] by {
                assert(rest@[j] == before[j + 1]);
                assert(views(before)[j + 1] == all.skip(i as int)[j + 1]);
            }
            assert(views(rest@) =~= all.skip(i + 1));
            assert(e@ == all[i as int]) by {
                assert(views(before)[0] == all.skip(i as int)[0]);
            }
            assert(all.take(i + 1).drop_last() =~= all.take(i as int));
            assert(all.take(i + 1).last() == all[i as int]);
        }
        let (lines, total) = shift_lines(kept.len(), &e.hours);
        if total > 0 {
            let mut lines = lines;
            details.append(&mut lines);
            kept.push(e);
            proof {
                let w = working(all.take(i as int));
                assert(working(all.take(i + 1)) == w.push(all[i as int]));
                assert(w.push(all[i as int]).drop_last() =~= w);
                assert(views(kept@) =~= w.push(all[i as int]));
            }
        } else {
            proof {
                assert(working(all.take(i + 1)) == working(all.take(i as int)));
            }
        }
        i = i + 1;
    }
    proof {
        assert(all.take(i as int) =~= all);
    }
    Ok(TimecardRecords { period_end, timecard: payperiod.to_string(), employees: kept, details })
}

/// Every employee in the records worked more than zero hours in all: one
/// whose shifts were all filtered out, or who has none, is left out.
pub proof fn lemma_working_have_hours(emps: Seq<EmployeeView>)
    ensures
        forall|k: int| 0 <= k < working(emps).len() ==> total_hours(#[trigger] working(emps)[k].hours) > 0,
    decreases emps.len(),
{
    if emps.len() > 0 {
        lemma_working_have_hours(emps.drop_last());
        let w = working(emps.drop_last());
        assert forall|k: int| 0 <= k < working(emps).len() implies total_hours(
            #[trigger] working(emps)[k].hours,
        ) > 0 by {
            if k < w.len() {
                assert(working(emps)[k] == w[k]);
            }
        }
    }
}

/// Every detail line is for a shift of more than zero hours.
pub proof fn lemma_detail_lines_worked(emps: Seq<EmployeeView>)
    ensures
        forall|i: int| 0 <= i < detail_lines(emps).len() ==> (#[trigger] detail_lines(emps)[i]).shift.hours > 0,
    decreases emps.len(),
{
    if emps.len() > 0 {
        lemma_detail_lines_worked(emps.drop_last());
        lemma_worked_positive(emps.last().hours);
        let a = detail_lines(emps.drop_last());
        let b = lines_of(emps.len() - 1, emps.last().hours);
        assert forall|i: int| 0 <= i < detail_lines(emps).len() implies (#[trigger] detail_lines(emps)[i]).shift.hours > 0 by {
            if i < a.len() {
                assert(detail_lines(emps)[i] == a[i]);
            } else {
                assert(detail_lines(emps)[i] == b[i - a.len()]);
            }
        }
    }
}

proof fn lemma_worked_positive(shifts: Seq<Shift>)
    ensures
        forall|i: int| 0 <= i < worked(shifts).len() ==> (#[trigger] worked(shifts)[i]).hours > 0,
    decreases shifts.len(),
{
    if shifts.len() > 0 {
        lemma_worked_positive(shifts.drop_last());
        let w = worked(shifts.drop_last());
        assert forall|i: int| 0 <= i < worked(shifts).len() implies (#[trigger] worked(shifts)[i]).hours > 0 by {
            if i < w.len() {
                assert(worked(shifts)[i] == w[i]);
            }
        }
    }
}

} // verus!
