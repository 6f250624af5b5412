//! Failure taxonomy of the repository and the opaque error the boundary sees.

use vstd::prelude::*;
use vstd::string::StringExecFns;

use crate::server::ServerResponse;

verus! {

/// Why a repository operation failed.
///
/// `NotFound` is the one class the boundary reports with a distinct status;
/// the store-level classes (`ConstraintViolation`, `StoreUnavailable`,
/// `Unclassified`) are all surfaced as an internal failure.
#[derive(Clone, Copy, Debug, PartialEq, Eq, Structural)]
pub enum RepoError {
    NotFound,
    ConstraintViolation,
    StoreUnavailable,
    Unclassified,
}

impl RepoError {
    /// The spec-level text of `describe`.
    pub open spec fn describe_spec(self) -> Seq<char> {
        match self {
            RepoError::NotFound => "not found"@,
            RepoError::ConstraintViolation => "constraint violation"@,
            RepoError::StoreUnavailable => "store unavailable"@,
            RepoError::Unclassified => "internal error"@,
        }
    }

    /// A human-readable description of the failure class.
    pub fn describe(&self) -> (r: String)
        ensures
            r@ == self.describe_spec(),
    {
        match self {
            RepoError::NotFound => String::from_str("not found"),
            RepoError::ConstraintViolation => String::from_str("constraint violation"),
            RepoError::StoreUnavailable => String::from_str("store unavailable"),
            RepoError::Unclassified => String::from_str("internal error"),
        }
    }
}

/// The error every handler returns: a repository failure about to be
/// translated into a response envelope.
#[derive(Clone, Copy, Debug, PartialEq, Eq, Structural)]
pub struct InternalServerError(pub RepoError);

impl InternalServerError {
    /// The HTTP-equivalent status the boundary reports for this failure:
    /// not-found is distinguishable, everything else is internal.
    pub open spec fn status_spec(self) -> u16 {
        if self.0 is NotFound {
            404
        } else {
            500
        }
    }

    /// The failure envelope: the description as the message, no payload, and
    /// the status that `status_spec` gives.
    pub fn to_envelope(&self) -> (r: ServerResponse<()>)
        ensures
            r.message@ == self.0.describe_spec(),
            r.status_code == self.status_spec(),
    {
        let status: u16 = match self.0 {
            RepoError::NotFound => 404,
            _ => 500,
        };
        ServerResponse::error_code(self.0.describe(), status)
    }
}

impl From<RepoError> for InternalServerError {
    fn from(e: RepoError) -> (r: Self) {
        InternalServerError(e)
    }
}

impl vstd::std_specs::convert::FromSpecImpl<RepoError> for InternalServerError {
    open spec fn obeys_from_spec() -> bool {
        true
    }

    open spec fn from_spec(e: RepoError) -> Self {
        InternalServerError(e)
    }
}

} // verus!
