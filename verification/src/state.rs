//! The mathematical model of what the service has recorded, and the
//! lifecycle of a connection request as transitions on that model.
//!
//! Requests are filed by identifier; connections are kept in the order in
//! which they were made. The executable types view themselves as a
//! [`StoreState`], and their contracts are stated with the functions here.

use vstd::prelude::*;
use crate::error::ConnectionError;
use crate::models::{ConnectionStatus, ConnectionView, RequestView};

verus! {

/// Everything recorded so far.
pub struct StoreState {
    /// Every request ever issued, by identifier.
    pub requests: Map<Seq<char>, RequestView>,
    /// Every connection ever made, most recent first.
    pub connections: Seq<ConnectionView>,
}

impl StoreState {
    /// Nothing recorded.
    pub open spec fn empty() -> Self {
        StoreState { requests: Map::empty(), connections: Seq::empty() }
    }

    /// Every request is filed under its own identifier.
    pub open spec fn keyed_by_id(self) -> bool {
        forall|id: Seq<char>| #[trigger]
            self.requests.contains_key(id) ==> self.requests[id].id == id
    }

    /// The request filed under `id`, if there is one.
    pub open spec fn request(self, id: Seq<char>) -> Option<RequestView> {
        if self.requests.contains_key(id) {
            Some(self.requests[id])
        } else {
            None
        }
    }

    /// Whether a request is filed under `id` and has been accepted.
    pub open spec fn is_accepted(self, id: Seq<char>) -> bool {
        self.requests.contains_key(id) && self.requests[id].status == ConnectionStatus::Accepted
    }

    /// Whether a request is filed under `id` and is still pending.
    pub open spec fn is_pending(self, id: Seq<char>) -> bool {
        self.requests.contains_key(id) && self.requests[id].status == ConnectionStatus::Pending
    }

    /// The connections that carry the identifier `id`.
    pub open spec fn connections_with_id(self, id: Seq<char>) -> Seq<ConnectionView> {
        self.connections.filter(ConnectionView::identified_by(id))
    }

    /// The connections in which `user_id` takes part, most recent first.
    pub open spec fn connections_of(self, user_id: Seq<char>) -> Seq<ConnectionView> {
        self.connections.filter(ConnectionView::involving(user_id))
    }

    /// The state with `request` filed under its identifier.
    pub open spec fn with_request(self, request: RequestView) -> Self {
        StoreState { requests: self.requests.insert(request.id, request), ..self }
    }

    /// The state in which the request under `id` has been accepted.
    pub open spec fn with_accepted(self, id: Seq<char>) -> Self {
        StoreState { requests: self.requests.insert(id, self.requests[id].accepted()), ..self }
    }

    /// The state with `connection` recorded as the most recent one.
    pub open spec fn with_connection(self, connection: ConnectionView) -> Self {
        StoreState { connections: seq![connection] + self.connections, ..self }
    }

    /// What the lifecycle guarantees of the records, whatever operations
    /// were applied in whatever order:
    /// requests are filed under their own identifiers; no two connections
    /// share an identifier; each connection stems from an accepted request of
    /// its first participant and joins two different users; and each accepted
    /// request has its connection.
    pub open spec fn wf(self) -> bool {
        &&& self.keyed_by_id()
        &&& forall|i: int, j: int|
            0 <= i < j < self.connections.len() ==> self.connections[i].id
                != self.connections[j].id
        &&& forall|i: int|
            0 <= i < self.connections.len() ==> {
                let c = #[trigger] self.connections[i];
                &&& self.is_accepted(c.id)
                &&& self.requests[c.id].requester_id == c.requester_id
                &&& c.requester_id != c.acceptor_id
            }
        &&& forall|id: Seq<char>| #[trigger]
            self.is_accepted(id) ==> exists|i: int|
                0 <= i < self.connections.len() && (#[trigger] self.connections[i]).id == id
    }

    /// What issuing a request under the identifier `id` returns: the pending
    /// request, unless the identifier is taken.
    pub open spec fn create_outcome(
        self,
        id: Seq<char>,
        requester_id: Seq<char>,
        label: Seq<char>,
    ) -> Result<RequestView, ConnectionError> {
        if self.requests.contains_key(id) {
            Err(ConnectionError::DuplicateId)
        } else {
            Ok(RequestView::pending(id, requester_id, label))
        }
    }

    /// The state after issuing a request under `id`: the request is filed
    /// where it was issued, nothing changes where it was refused.
    pub open spec fn after_create(
        self,
        id: Seq<char>,
        requester_id: Seq<char>,
        label: Seq<char>,
    ) -> Self {
        match self.create_outcome(id, requester_id, label) {
            Ok(request) => self.with_request(request),
            Err(_) => self,
        }
    }

    /// What accepting the request `request_id` on behalf of `acceptor_id`
    /// returns. The checks come in this order: the request exists, it is
    /// still pending, and the acceptor is not the requester. The connection
    /// takes the identifier of the request and the label given here.
    pub open spec fn accept_outcome(
        self,
        request_id: Seq<char>,
        acceptor_id: Seq<char>,
        label: Seq<char>,
    ) -> Result<ConnectionView, ConnectionError> {
        if !self.requests.contains_key(request_id) {
            Err(ConnectionError::NotFound)
        } else if self.requests[request_id].status != ConnectionStatus::Pending {
            Err(ConnectionError::AlreadyAccepted)
        } else if self.requests[request_id].requester_id == acceptor_id {
            Err(ConnectionError::SelfConnection)
        } else {
            Ok(
                ConnectionView {
                    id: request_id,
                    requester_id: self.requests[request_id].requester_id,
                    acceptor_id,
                    label,
                },
            )
        }
    }

    /// The state after accepting: the request is marked and the connection
    /// recorded where acceptance succeeded, nothing changes where it failed.
    pub open spec fn after_accept(
        self,
        request_id: Seq<char>,
        acceptor_id: Seq<char>,
        label: Seq<char>,
    ) -> Self {
        match self.accept_outcome(request_id, acceptor_id, label) {
            Ok(connection) => self.with_accepted(request_id).with_connection(connection),
            Err(_) => self,
        }
    }

    /// The state after `op`.
    pub open spec fn apply(self, op: Operation) -> Self {
        match op {
            Operation::Create { id, requester_id, label } => self.after_create(
                id,
                requester_id,
                label,
            ),
            Operation::Accept { request_id, acceptor_id, label } => self.after_accept(
                request_id,
                acceptor_id,
                label,
            ),
        }
    }

    /// The state after the operations `ops`, applied first to last.
    pub open spec fn run(self, ops: Seq<Operation>) -> Self
        decreases ops.len(),
    {
        if ops.len() == 0 {
            self
        } else {
            self.run(ops.drop_last()).apply(ops.last())
        }
    }

    /// Whether `op`, applied in this state, issues a request under `id`.
    pub open spec fn issues(self, op: Operation, id: Seq<char>) -> bool {
        match op {
            Operation::Create { id: issued, requester_id, label } => issued == id
                && self.create_outcome(issued, requester_id, label) is Ok,
            Operation::Accept { .. } => false,
        }
    }

    /// How many of the operations `ops`, applied first to last from this
    /// state, issue a request under `id`.
    pub open spec fn times_issued(self, ops: Seq<Operation>, id: Seq<char>) -> nat
        decreases ops.len(),
    {
        if ops.len() == 0 {
            0
        } else {
            let earlier: nat = self.times_issued(ops.drop_last(), id);
            if self.run(ops.drop_last()).issues(ops.last(), id) {
                earlier + 1
            } else {
                earlier
            }
        }
    }

    /// Whether `op`, applied in this state, accepts the request `id` with
    /// success.
    pub open spec fn accepts(self, op: Operation, id: Seq<char>) -> bool {
        match op {
            Operation::Create { .. } => false,
            Operation::Accept { request_id, acceptor_id, label } => request_id == id
                && self.accept_outcome(request_id, acceptor_id, label) is Ok,
        }
    }

    /// How many of the operations `ops`, applied first to last from this
    /// state, accept the request `id` with success.
    pub open spec fn times_accepted(self, ops: Seq<Operation>, id: Seq<char>) -> nat
        decreases ops.len(),
    {
        if ops.len() == 0 {
            0
        } else {
            let earlier: nat = self.times_accepted(ops.drop_last(), id);
            if self.run(ops.drop_last()).accepts(ops.last(), id) {
                earlier + 1
            } else {
                earlier
            }
        }
    }
}

/// One call of a lifecycle operation that changes the records, with its
/// arguments.
pub enum Operation {
    /// Issue a request under `id`.
    Create { id: Seq<char>, requester_id: Seq<char>, label: Seq<char> },
    /// Accept the request `request_id`.
    Accept { request_id: Seq<char>, acceptor_id: Seq<char>, label: Seq<char> },
}

} // verus!
