//! Timecard conversion: reads a payroll timecard grid, infers where its date
//! columns lie, extracts employees and shifts, and lays out the records of
//! the accounting import sheets.

pub mod column;
pub mod confirm;
pub mod date;
pub mod employees;
pub mod error;
pub mod sage;
pub mod timecards;
