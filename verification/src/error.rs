//! The error of an assignment.

use halo2_proofs::plonk::Error;
use vstd::prelude::*;

verus! {

/// A request that the backend refused.  Each variant says which kind of
/// request it was and carries the backend's error unchanged.
#[derive(Debug)]
pub enum AssignError {
    /// The region refused to enable a selector.
    Selector(Error),
    /// The region refused a value for a witness cell.
    Witness(Error),
    /// The table refused a value for one of its cells.
    Table(Error),
}

impl AssignError {
    /// The backend's error, as the backend returned it.
    pub open spec fn spec_cause(self) -> Error {
        match self {
            AssignError::Selector(cause) => cause,
            AssignError::Witness(cause) => cause,
            AssignError::Table(cause) => cause,
        }
    }

    /// Hands the backend's error back unchanged.
    #[verifier::when_used_as_spec(spec_cause)]
    pub fn cause(self) -> (cause: Error)
        ensures
            cause == self.spec_cause(),
    {
        match self {
            AssignError::Selector(cause) => cause,
            AssignError::Witness(cause) => cause,
            AssignError::Table(cause) => cause,
        }
    }

    /// The outcome of a request to enable a selector: success stays success,
    /// and a refusal becomes [`AssignError::Selector`] of the same error.
    pub fn selector(outcome: Result<(), Error>) -> (mapped: Result<(), AssignError>)
        ensures
            mapped == match outcome {
                Ok(()) => Ok::<(), AssignError>(()),
                Err(cause) => Err(AssignError::Selector(cause)),
            },
    {
        match outcome {
            Ok(()) => Ok(()),
            Err(cause) => Err(AssignError::Selector(cause)),
        }
    }

    /// The outcome of a request to assign a witness cell: success stays
    /// success, and a refusal becomes [`AssignError::Witness`] of the same
    /// error.
    pub fn witness(outcome: Result<(), Error>) -> (mapped: Result<(), AssignError>)
        ensures
            mapped == match outcome {
                Ok(()) => Ok::<(), AssignError>(()),
                Err(cause) => Err(AssignError::Witness(cause)),
            },
    {
        match outcome {
            Ok(()) => Ok(()),
            Err(cause) => Err(AssignError::Witness(cause)),
        }
    }

    /// The outcome of a request to assign a table cell: success stays
    /// success, and a refusal becomes [`AssignError::Table`] of the same
    /// error.
    pub fn table(outcome: Result<(), Error>) -> (mapped: Result<(), AssignError>)
        ensures
            mapped == match outcome {
                Ok(()) => Ok::<(), AssignError>(()),
                Err(cause) => Err(AssignError::Table(cause)),
            },
    {
        match outcome {
            Ok(()) => Ok(()),
            Err(cause) => Err(AssignError::Table(cause)),
        }
    }
}

} // verus!
