//! The records of the service and their mathematical views.
//!
//! Every record is plain data. Its view replaces each `String` by the
//! sequence of its characters, so that contracts compare records by content.

use vstd::prelude::*;
use crate::error::ConnectionError;

verus! {

/// Where a connection request stands in its lifecycle.
#[derive(Clone, Copy, Debug, PartialEq, Eq, Structural)]
pub enum ConnectionStatus {
    /// Issued and not yet accepted.
    Pending,
    /// Consumed into a connection. Terminal.
    Accepted,
}

/// A user as registered at login.
#[derive(Debug, PartialEq, Eq)]
pub struct User {
    pub id: String,
    pub name: String,
}

/// The content of a [`User`].
pub struct UserView {
    pub id: Seq<char>,
    pub name: Seq<char>,
}

impl View for User {
    type V = UserView;

    open spec fn view(&self) -> UserView {
        UserView { id: self.id@, name: self.name@ }
    }
}

impl Clone for User {
    fn clone(&self) -> (copy: Self)
        ensures
            copy == *self,
    {
        User { id: self.id.clone(), name: self.name.clone() }
    }
}

/// A one-sided proposal to connect, issued by `requester_id`.
#[derive(Debug, PartialEq, Eq)]
pub struct ConnectionRequest {
    pub id: String,
    pub requester_id: String,
    pub label: String,
    pub status: ConnectionStatus,
}

/// The content of a [`ConnectionRequest`].
pub struct RequestView {
    pub id: Seq<char>,
    pub requester_id: Seq<char>,
    pub label: Seq<char>,
    pub status: ConnectionStatus,
}

impl RequestView {
    /// The request as first issued: `Pending`.
    pub open spec fn pending(id: Seq<char>, requester_id: Seq<char>, label: Seq<char>) -> Self {
        RequestView { id, requester_id, label, status: ConnectionStatus::Pending }
    }

    /// The same request after acceptance.
    pub open spec fn accepted(self) -> Self {
        RequestView { status: ConnectionStatus::Accepted, ..self }
    }
}

impl View for ConnectionRequest {
    type V = RequestView;

    open spec fn view(&self) -> RequestView {
        RequestView {
            id: self.id@,
            requester_id: self.requester_id@,
            label: self.label@,
            status: self.status,
        }
    }
}

impl Clone for ConnectionRequest {
    fn clone(&self) -> (copy: Self)
        ensures
            copy == *self,
    {
        ConnectionRequest {
            id: self.id.clone(),
            requester_id: self.requester_id.clone(),
            label: self.label.clone(),
            status: self.status,
        }
    }
}

impl ConnectionRequest {
    /// A fresh request in the `Pending` state.
    pub fn new(id: String, requester_id: String, label: String) -> (request: Self)
        ensures
            request@ == RequestView::pending(id@, requester_id@, label@),
    {
        ConnectionRequest { id, requester_id, label, status: ConnectionStatus::Pending }
    }

    /// Whether the request can still be accepted.
    pub fn is_pending(&self) -> (b: bool)
        ensures
            b == (self@.status == ConnectionStatus::Pending),
    {
        match self.status {
            ConnectionStatus::Pending => true,
            ConnectionStatus::Accepted => false,
        }
    }
}

/// An accepted, two-sided relationship between the user who asked for it and
/// the user who accepted. It carries the identifier of the request it came
/// from.
#[derive(Debug, PartialEq, Eq)]
pub struct Connection {
    pub id: String,
    pub requester_id: String,
    pub acceptor_id: String,
    pub label: String,
}

/// The content of a [`Connection`].
pub struct ConnectionView {
    pub id: Seq<char>,
    pub requester_id: Seq<char>,
    pub acceptor_id: Seq<char>,
    pub label: Seq<char>,
}

impl ConnectionView {
    /// The two users of the connection, as an unordered pair.
    pub open spec fn participants(self) -> Set<Seq<char>> {
        set![self.requester_id, self.acceptor_id]
    }

    /// Whether `user_id` is one of the two participants.
    pub open spec fn involves(self, user_id: Seq<char>) -> bool {
        self.requester_id == user_id || self.acceptor_id == user_id
    }

    /// The test "takes `user_id` part in it?", as a predicate on connections.
    pub open spec fn involving(user_id: Seq<char>) -> spec_fn(ConnectionView) -> bool {
        |c: ConnectionView| c.involves(user_id)
    }

    /// The test "does it carry the identifier `id`?", as a predicate on
    /// connections.
    pub open spec fn identified_by(id: Seq<char>) -> spec_fn(ConnectionView) -> bool {
        |c: ConnectionView| c.id == id
    }
}

impl View for Connection {
    type V = ConnectionView;

    open spec fn view(&self) -> ConnectionView {
        ConnectionView {
            id: self.id@,
            requester_id: self.requester_id@,
            acceptor_id: self.acceptor_id@,
            label: self.label@,
        }
    }
}

impl Clone for Connection {
    fn clone(&self) -> (copy: Self)
        ensures
            copy == *self,
    {
        Connection {
            id: self.id.clone(),
            requester_id: self.requester_id.clone(),
            acceptor_id: self.acceptor_id.clone(),
            label: self.label.clone(),
        }
    }
}

impl Connection {
    /// Whether `user_id` is one of the two participants.
    pub fn involves(&self, user_id: &str) -> (b: bool)
        ensures
            b == self@.involves(user_id@),
    {
        let key = user_id.to_owned();
        self.requester_id == key || self.acceptor_id == key
    }
}

/// The content of what issuing a request returned.
pub open spec fn request_outcome(created: Result<ConnectionRequest, ConnectionError>) -> Result<
    RequestView,
    ConnectionError,
> {
    match created {
        Ok(request) => Ok(request@),
        Err(e) => Err(e),
    }
}

/// The content of what accepting a request returned.
pub open spec fn connection_outcome(made: Result<Connection, ConnectionError>) -> Result<
    ConnectionView,
    ConnectionError,
> {
    match made {
        Ok(connection) => Ok(connection@),
        Err(e) => Err(e),
    }
}

} // verus!
