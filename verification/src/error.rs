//! The ways in which a lifecycle operation can be refused.

use vstd::prelude::*;

verus! {

/// Why an operation on the connection lifecycle was refused.
#[derive(Clone, Copy, Debug, PartialEq, Eq, Structural)]
pub enum ConnectionError {
    /// No request is recorded under the given identifier.
    NotFound,
    /// The request has left the `Pending` state already.
    AlreadyAccepted,
    /// The accepting user is the user who issued the request.
    SelfConnection,
    /// A request is already recorded under the identifier of the new one.
    DuplicateId,
}

impl ConnectionError {
    /// Whether the error answers what the caller asked for, so that the
    /// caller can act on it. `DuplicateId` does not: it points at a fault in
    /// identifier generation.
    pub open spec fn recoverable(self) -> bool {
        self != ConnectionError::DuplicateId
    }

    /// Decides [`Self::recoverable`].
    pub fn is_recoverable(&self) -> (b: bool)
        ensures
            b == self.recoverable(),
    {
        match self {
            ConnectionError::DuplicateId => false,
            _ => true,
        }
    }

    /// A short description of the error, one fixed text per variant.
    pub fn message(&self) -> (text: &'static str)
        ensures
            text@ == self.message_text(),
    {
        match self {
            ConnectionError::NotFound => "connection request not found",
            ConnectionError::AlreadyAccepted => "connection request already accepted",
            ConnectionError::SelfConnection => "cannot connect a user to themselves",
            ConnectionError::DuplicateId => "identifier already in use",
        }
    }

    /// The text that [`Self::message`] returns.
    pub open spec fn message_text(self) -> Seq<char> {
        match self {
            ConnectionError::NotFound => "connection request not found"@,
            ConnectionError::AlreadyAccepted => "connection request already accepted"@,
            ConnectionError::SelfConnection => "cannot connect a user to themselves"@,
            ConnectionError::DuplicateId => "identifier already in use"@,
        }
    }
}

} // verus!
