//! What the ledger makes of its backing file when it starts.

use crate::expense::Expense;
use vstd::prelude::*;

verus! {

/// What came of reading the backing file.
#[derive(Debug, PartialEq, Eq)]
pub enum Stored {
    /// There is no such file.
    Missing,
    /// The file is there and could not be read.
    Unreadable,
    /// The file was read, and its content is no list of expense records.
    Malformed,
    /// The file was read and holds these records.
    Records(Vec<Expense>),
}

/// Why the ledger could not be loaded. Either is fatal: no command runs.
#[derive(Debug, Clone, Copy, PartialEq, Eq)]
pub enum LoadError {
    /// The backing file could not be read.
    Unreadable,
    /// The backing file holds something else than a list of expense records.
    Malformed,
}

/// The ledger to start from, or the reason why there is none.
pub open spec fn loaded_from(stored: Stored) -> Result<Seq<Expense>, LoadError> {
    match stored {
        Stored::Missing => Ok(Seq::empty()),
        Stored::Records(records) => Ok(records@),
        Stored::Unreadable => Err(LoadError::Unreadable),
        Stored::Malformed => Err(LoadError::Malformed),
    }
}

/// Turns what came of reading the backing file into the ledger to start
/// from. A missing file is an empty ledger and no error, records that were
/// read are taken as they are, and a file that could not be read or
/// understood is an error.
pub fn load_expenses(stored: Stored) -> (loaded: Result<Vec<Expense>, LoadError>)
    ensures
        loaded is Ok <==> (stored is Missing || stored is Records),
        match loaded {
            Ok(expense) => loaded_from(stored) == Ok::<Seq<Expense>, LoadError>(expense@),
            Err(error) => loaded_from(stored) == Err::<Seq<Expense>, LoadError>(error),
        },
        stored matches Stored::Records(records) ==> loaded == Ok::<Vec<Expense>, LoadError>(
            records,
        ),
{
    match stored {
        Stored::Missing => Ok(Vec::new()),
        Stored::Records(records) => Ok(records),
        Stored::Unreadable => Err(LoadError::Unreadable),
        Stored::Malformed => Err(LoadError::Malformed),
    }
}

} // verus!
