//! The errors of the store.

use vstd::prelude::*;

verus! {

/// Why the store refused a request.
#[derive(Debug, Clone, Copy, PartialEq, Eq, Structural)]
pub enum StorageError {
    /// A day's seconds would exceed what one record can hold.
    TotalTooLarge,
    /// A sum over several records exceeds what a query can report.
    SumTooLarge,
    /// The day that a query starts from is not in the calendar.
    NoSuchDay,
}

impl StorageError {
    /// The error in words, for a log.
    pub fn message(&self) -> (text: &'static str)
        ensures
            text@ == (match *self {
                StorageError::TotalTooLarge => "seconds of a day out of range"@,
                StorageError::SumTooLarge => "integer overflow"@,
                StorageError::NoSuchDay => "day out of range"@,
            }),
    {
        match self {
            StorageError::TotalTooLarge => "seconds of a day out of range",
            StorageError::SumTooLarge => "integer overflow",
            StorageError::NoSuchDay => "day out of range",
        }
    }
}

} // verus!
