//! The two ways in which an operation on a cell is turned down.

use vstd::prelude::*;

verus! {

/// Why a read of, or a write to, a once-initialised cell was turned down.
#[derive(Debug, Clone, Copy, PartialEq, Eq, Structural)]
pub enum OnceInitError {
    /// A read found that no value has been stored yet.
    DataUninitialized,
    /// A write found that a value has been stored already.
    DataInitialized,
}

impl OnceInitError {
    /// The human-readable description of the condition.
    pub open spec fn text(self) -> Seq<char> {
        match self {
            OnceInitError::DataUninitialized => "data is uninitialized."@,
            OnceInitError::DataInitialized => "data has already been initialized."@,
        }
    }

    /// Renders the description as an owned string.
    pub fn to_string(&self) -> (s: String)
        ensures
            s@ == self.text(),
    {
        match self {
            OnceInitError::DataUninitialized => "data is uninitialized.".to_owned(),
            OnceInitError::DataInitialized => "data has already been initialized.".to_owned(),
        }
    }
}

} // verus!
