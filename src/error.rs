//! Errors of reading a timecard grid.

use vstd::prelude::*;

verus! {

/// Why a timecard sheet could not be read.
#[derive(Clone, Debug, PartialEq, Eq)]
pub enum ExcelError {
    Unexpected,
    /// A message from the workbook reader.
    Msg(String),
    /// The workbook could not be read from its file; the reader's message.
    Io(String),
    /// The workbook's contents could not be decoded; the reader's message.
    Format(String),
    /// The workbook has no sheet of this name.
    WorksheetNotFound(String),
    /// No row of the sheet holds dates.
    UnresolvedDateRange,
}

} // verus!
