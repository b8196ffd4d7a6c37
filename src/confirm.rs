//! Confirming an inferred date range with an operator, who may correct its
//! first date and its columns. Each call takes one reply and says what to
//! ask next; the caller does the asking.

use crate::column::{column_letters, column_name, letters_value, letters_value_checked};
use crate::date::{day_after, parse_date, parsed_day, Date, LONG_DATE_FORMAT};
use crate::error::ExcelError;
use crate::timecards::DateColumnRange;
use vstd::prelude::*;

verus! {

/// The question the operator is to answer next.
#[derive(Clone, Copy, Debug, PartialEq, Eq, Structural)]
pub enum Step {
    /// Are the first and last date right?
    ConfirmDates,
    /// What is the first date?
    EnterStart,
    /// Are the first and last date column right?
    ConfirmColumns,
    /// Which column holds the first date?
    EnterHead,
    /// Which column holds the last date?
    EnterTail,
    /// Both were confirmed in one pass.
    Done,
}

/// What to ask the operator, with what to show.
#[derive(Clone, Debug)]
pub enum Action {
    AskDates { start: Date, end: Date },
    AskStart,
    AskColumns { head: String, tail: String },
    AskHead,
    AskTail,
    Finish(DateColumnRange),
}

/// Why a typed answer was refused; the same question is asked again.
#[derive(Clone, Copy, Debug, PartialEq, Eq, Structural)]
pub enum InputError {
    /// Not a date of the form `January 01, 2021`, or one too far off to
    /// count days from.
    MalformedDate,
    /// No column letters, a column past `i32::MAX`, or a last column
    /// before the first.
    MalformedColumn,
}

/// A confirmation under way.
#[derive(Clone, Copy, Debug, PartialEq, Eq, Structural)]
pub struct Confirmation {
    pub range: DateColumnRange,
    pub step: Step,
    /// The dates were confirmed in this pass.
    pub dates_ok: bool,
    /// The columns were confirmed in this pass.
    pub columns_ok: bool,
    /// The first column typed in this pass, while the last is awaited.
    pub pending_head: usize,
}

/// The last date of a range with first date `start` over columns `head` to
/// `tail`: one day per column.
pub open spec fn span_end(start: Date, head: int, tail: int) -> Option<Date> {
    day_after(start.day as int, tail - head)
}

/// The first and last date are known, the columns ascend, and the last date
/// can be counted from the first.
pub open spec fn consistent(range: DateColumnRange) -> bool {
    &&& range.is_resolved()
    &&& range.head <= range.tail
    &&& span_end(range.start.unwrap(), range.head as int, range.tail as int).is_some()
}

/// The last date follows from the first, one day per column.
pub open spec fn end_follows(range: DateColumnRange) -> bool {
    consistent(range) && range.end == span_end(range.start.unwrap(), range.head as int, range.tail as int)
}

/// The question that shows the dates of `range`.
pub open spec fn asks_dates(a: Action, range: DateColumnRange) -> bool {
    a == Action::AskDates { start: range.start.unwrap(), end: range.end.unwrap() }
}

/// The question that shows the columns of `range` by name.
pub open spec fn asks_columns(a: Action, range: DateColumnRange) -> bool {
    match a {
        Action::AskColumns { head, tail } => head@ == column_name(range.head as int)
            && tail@ == column_name(range.tail as int),
        _ => false,
    }
}

/// The end of a pass: the last date counted anew from the first; finished
/// where both were confirmed, else the next pass begins.
pub open spec fn after_pass(c: Confirmation, range: DateColumnRange) -> Confirmation {
    let r = DateColumnRange {
        end: span_end(range.start.unwrap(), range.head as int, range.tail as int),
        ..range
    };
    if c.dates_ok && c.columns_ok {
        Confirmation { range: r, step: Step::Done, ..c }
    } else {
        Confirmation { range: r, step: Step::ConfirmDates, ..c }
    }
}

/// The action that goes with a state at the end of a pass.
pub open spec fn pass_action(c: Confirmation, a: Action) -> bool {
    if c.step == Step::Done {
        a == Action::Finish(c.range)
    } else {
        asks_dates(a, c.range)
    }
}

/// The column that typed letters name, or `None` where they name none that
/// fits (no letters, or past `i32::MAX`).
pub open spec fn typed_column(text: Seq<char>) -> Option<int> {
    if 1 <= letters_value(text) <= i32::MAX {
        Some(letters_value(text) - 1)
    } else {
        None
    }
}

impl Confirmation {
    /// A confirmation is under way on a consistent range.
    pub open spec fn wf(self) -> bool {
        &&& consistent(self.range)
        &&& self.step == Step::EnterTail ==> self.pending_head <= i32::MAX
    }

    /// Begins confirming `range`, asking first about its dates. Fails on a
    /// range that is not consistent.
    pub fn begin(range: DateColumnRange) -> (r: Result<(Confirmation, Action), ExcelError>)
        ensures
            match r {
                Ok((c, a)) => consistent(range) && c.wf() && c.range == range && c.step
                    == Step::ConfirmDates && asks_dates(a, range),
                Err(e) => !consistent(range) && e == ExcelError::UnresolvedDateRange,
            },
    {
        let (start, end) = match range.range() {
            Some(pair) => pair,
            None => {
                return Err(ExcelError::UnresolvedDateRange);
            },
        };
        if range.head > range.tail || range.date_from_column(range.tail).is_none() {
            return Err(ExcelError::UnresolvedDateRange);
        }
        let c = Confirmation {
            range,
            step: Step::ConfirmDates,
            dates_ok: false,
            columns_ok: false,
            pending_head: 0,
        };
        Ok((c, Action::AskDates { start, end }))
    }

    fn finish_pass(&mut self) -> (a: Action)
        requires
            old(self).wf(),
        ensures
            *final(self) == after_pass(*old(self), old(self).range),
            final(self).wf(),
            pass_action(*final(self), a),
    {
        self.range.end = self.range.date_from_column(self.range.tail);
        if self.dates_ok && self.columns_ok {
            self.step = Step::Done;
            Action::Finish(self.range)
        } else {
            self.step = Step::ConfirmDates;
            match self.range.range() {
                Some((start, end)) => Action::AskDates { start, end },
                None => Action::AskStart,
            }
        }
    }

    /// Takes a yes or no to the question about the dates or the columns.
    /// A yes to the dates moves on to the columns; a no asks for the first
    /// date. A yes to the columns ends the pass; a no asks for the columns.
    pub fn confirm(&mut self, yes: bool) -> (a: Action)
        requires
            old(self).wf(),
            old(self).step == Step::ConfirmDates || old(self).step == Step::ConfirmColumns,
        ensures
            final(self).wf(),
            old(self).step == Step::ConfirmDates ==> {
                &&& *final(self) == (if yes {
                    Confirmation { dates_ok: true, step: Step::ConfirmColumns, ..*old(self) }
                } else {
                    Confirmation { dates_ok: false, step: Step::EnterStart, ..*old(self) }
                })
                &&& yes ==> asks_columns(a, old(self).range)
                &&& !yes ==> a == Action::AskStart
            },
            old(self).step == Step::ConfirmColumns ==> (if yes {
                let c = Confirmation { columns_ok: true, ..*old(self) };
                *final(self) == after_pass(c, c.range) && pass_action(*final(self), a)
            } else {
                *final(self) == Confirmation { columns_ok: false, step: Step::EnterHead, ..*old(self) }
                    && a == Action::AskHead
            }),
    {
        if self.step == Step::ConfirmDates {
            self.dates_ok = yes;
            if yes {
                self.step = Step::ConfirmColumns;
                Action::AskColumns {
                    head: column_letters(self.range.head),
                    tail: column_letters(self.range.tail),
                }
            } else {
                self.step = Step::EnterStart;
                Action::AskStart
            }
        } else {
            self.columns_ok = yes;
            if yes {
                self.finish_pass()
            } else {
                self.step = Step::EnterHead;
                Action::AskHead
            }
        }
    }

    /// Takes a typed answer: the first date (as `January 01, 2021`), the
    /// first column or the last column (by letters). A refused answer
    /// leaves everything as it was.
    pub fn enter(&mut self, text: &str) -> (r: Result<Action, InputError>)
        requires
            old(self).wf(),
            old(self).step == Step::EnterStart || old(self).step == Step::EnterHead
                || old(self).step == Step::EnterTail,
        ensures
            final(self).wf(),
            r.is_err() ==> *final(self) == *old(self),
            old(self).step == Step::EnterStart ==> match parsed_day(text@, LONG_DATE_FORMAT@) {
                Some(d) => if span_end(Date { day: d as i64 }, old(self).range.head as int,
                    old(self).range.tail as int).is_some() {
                    let range = DateColumnRange { start: Some(Date { day: d as i64 }), ..old(self).range };
                    *final(self) == Confirmation { range, step: Step::ConfirmColumns, ..*old(self) }
                        && r.is_ok() && asks_columns(r.unwrap(), range)
                } else {
                    r == Err::<Action, InputError>(InputError::MalformedDate)
                },
                None => r == Err::<Action, InputError>(InputError::MalformedDate),
            },
            old(self).step == Step::EnterHead ==> match typed_column(text@) {
                Some(h) => *final(self) == Confirmation {
                    pending_head: h as usize,
                    step: Step::EnterTail,
                    ..*old(self)
                } && r == Ok::<Action, InputError>(Action::AskTail),
                None => r == Err::<Action, InputError>(InputError::MalformedColumn),
            },
            old(self).step == Step::EnterTail ==> match typed_column(text@) {
                Some(t) => if old(self).pending_head <= t && span_end(
                    old(self).range.start.unwrap(),
                    old(self).pending_head as int,
                    t,
                ).is_some() {
                    let range = DateColumnRange {
                        head: old(self).pending_head,
                        tail: t as usize,
                        ..old(self).range
                    };
                    *final(self) == after_pass(*old(self), range) && r.is_ok() && pass_action(
                        *final(self),
                        r.unwrap(),
                    )
                } else {
                    r == Err::<Action, InputError>(InputError::MalformedColumn)
                },
                None => r == Err::<Action, InputError>(InputError::MalformedColumn),
            },
    {
        if self.step == Step::EnterStart {
            let start = match parse_date(text, LONG_DATE_FORMAT) {
                Some(d) => d,
                None => {
                    return Err(InputError::MalformedDate);
                },
            };
            let candidate = DateColumnRange { start: Some(start), ..self.range };
            if candidate.date_from_column(candidate.tail).is_none() {
                return Err(InputError::MalformedDate);
            }
            self.range = candidate;
            self.step = Step::ConfirmColumns;
            return Ok(
                Action::AskColumns {
                    head: column_letters(self.range.head),
                    tail: column_letters(self.range.tail),
                },
            );
        }
        let col = match letters_value_checked(text) {
            Some(v) => {
                if v < 1 {
                    return Err(InputError::MalformedColumn);
                }
                (v - 1) as usize
            },
            None => {
                return Err(InputError::MalformedColumn);
            },
        };
        if self.step == Step::EnterHead {
            self.pending_head = col;
            self.step = Step::EnterTail;
            return Ok(Action::AskTail);
        }
        if col < self.pending_head {
            return Err(InputError::MalformedColumn);
        }
        let candidate = DateColumnRange { head: self.pending_head, tail: col, ..self.range };
        if candidate.date_from_column(candidate.tail).is_none() {
            return Err(InputError::MalformedColumn);
        }
        self.range = candidate;
        Ok(self.finish_pass())
    }
}

/// A pass in which the operator confirms both the dates and the columns
/// ends the confirmation and leaves a range whose last date follows from its
/// first as it was: counting the last date anew changes nothing.
pub proof fn lemma_confirmed_pass_keeps_range(c: Confirmation)
    requires
        c.wf(),
        c.step == Step::ConfirmDates,
        end_follows(c.range),
    ensures
        ({
            let c1 = Confirmation { dates_ok: true, step: Step::ConfirmColumns, ..c };
            let c2 = Confirmation { columns_ok: true, ..c1 };
            &&& after_pass(c2, c2.range).range == c.range
            &&& after_pass(c2, c2.range).step == Step::Done
        }),
{
}

} // verus!
