//! Failure taxonomy of the repositories.
//!
//! Every operation either succeeds whole or reports one of these; there
//! is no partial success. Shape validation happens at the transport
//! boundary, outside this crate, so only these two arise here.

use vstd::prelude::*;

verus! {

#[derive(Debug)]
pub enum RepoError {
    /// The row targeted by an update or delete does not exist.
    NotFound,
    /// The storage layer refused the statement; carries a human-readable
    /// description of what was attempted.
    Storage(String),
}

impl RepoError {
    /// The human-readable description of the failure.
    pub open spec fn spec_message(self) -> Seq<char> {
        match self {
            RepoError::NotFound => "no row matches the requested key"@,
            RepoError::Storage(m) => m@,
        }
    }

    pub fn message(&self) -> (m: String)
        ensures
            m@ == self.spec_message(),
    {
        match self {
            RepoError::NotFound => "no row matches the requested key".to_owned(),
            RepoError::Storage(m) => m.clone(),
        }
    }
}

} // verus!
