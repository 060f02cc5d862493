//! The lifecycle operations as a capability: what any manager of connections
//! offers, whatever it keeps its records in.

use vstd::prelude::*;
use crate::error::ConnectionError;
use crate::ident::is_identifier;
use crate::models::{connection_outcome, Connection, ConnectionRequest, RequestView};
use crate::state::StoreState;
use crate::store::connection_views;

verus! {

/// A service that issues connection requests, accepts them and lists the
/// connections of a user.
///
/// The contracts speak of [`ConnectionManager::state`], the records the
/// manager holds, and of nothing else: two managers that hold the same
/// records answer alike.
pub trait ConnectionManager {
    /// The records held.
    spec fn state(&self) -> StoreState;

    /// Issues a request on behalf of `requester_id` under a new identifier.
    ///
    /// The request returned is pending, carries the requester and label
    /// given, and has an identifier under which nothing was filed before the
    /// call; it is filed, and nothing else changes. The one failure is
    /// `DuplicateId`, on which nothing changes. It comes only where the
    /// identifier drawn was taken, so only where a request is filed under
    /// some identifier already: a manager that holds none, a new one above
    /// all, issues the request. Identifiers are random, so that among the
    /// managers that hold one the contract cannot say which draw fails.
    fn create_connection(&mut self, requester_id: String, label: String) -> (created: Result<
        ConnectionRequest,
        ConnectionError,
    >)
        ensures
            final(self).state().wf(),
            match created {
                Ok(request) => {
                    &&& is_identifier(request@.id)
                    &&& !old(self).state().requests.contains_key(request@.id)
                    &&& request@ == RequestView::pending(request@.id, requester_id@, label@)
                    &&& final(self).state() == old(self).state().with_request(request@)
                },
                Err(e) => e == ConnectionError::DuplicateId && final(self).state() == old(
                    self,
                ).state(),
            },
            created is Err ==> exists|id: Seq<char>|
                is_identifier(id) && #[trigger] old(self).state().requests.contains_key(id),
    ;

    /// Accepts the request `request_id` on behalf of `acceptor_id` and
    /// returns the connection made, which carries `label`.
    ///
    /// Result and new state are those of
    /// [`StoreState::accept_outcome`] and [`StoreState::after_accept`].
    fn accept_connection(&mut self, request_id: &str, acceptor_id: String, label: String) -> (made:
        Result<Connection, ConnectionError>)
        ensures
            final(self).state().wf(),
            final(self).state() == old(self).state().after_accept(
                request_id@,
                acceptor_id@,
                label@,
            ),
            connection_outcome(made) == old(self).state().accept_outcome(
                request_id@,
                acceptor_id@,
                label@,
            ),
    ;

    /// Copies of the connections in which `user_id` takes part, most recent
    /// first; empty where there are none.
    fn list_connections(&self, user_id: &str) -> (listed: Vec<Connection>)
        ensures
            self.state().wf(),
            connection_views(listed@) == self.state().connections_of(user_id@),
    ;
}

} // verus!
