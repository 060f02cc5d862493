//! The manager that keeps its records in memory, for the lifetime of the
//! value.

use vstd::prelude::*;
use crate::connection::ConnectionManager;
use crate::error::ConnectionError;
use crate::ident::{is_identifier, new_id};
use crate::laws::{law_accept_keeps_well_formed, law_create_keeps_well_formed};
use crate::models::{request_outcome, Connection, ConnectionRequest};
use crate::state::StoreState;
use crate::store::ConnectionStore;

verus! {

/// A connection manager over a [`ConnectionStore`] of its own.
///
/// Every operation takes the manager by exclusive or shared reference, so
/// the operations of concurrent callers happen one after the other, in some
/// order; the contracts hold for every order.
///
/// The records are well-formed ([`StoreState::wf`]) at every moment: this is
/// the invariant of the type. An operation that changes the store moves it
/// out of `self` first and moves it back when the change is complete.
pub struct InMemoryConnectionManager {
    store: ConnectionStore,
}

impl View for InMemoryConnectionManager {
    type V = StoreState;

    closed spec fn view(&self) -> StoreState {
        self.store@
    }
}

impl InMemoryConnectionManager {
    #[verifier::type_invariant]
    spec fn inv(self) -> bool {
        self.store@.wf()
    }

    /// A manager that has recorded nothing.
    pub fn new() -> (manager: Self)
        ensures
            manager@ == StoreState::empty(),
            manager@.wf(),
    {
        InMemoryConnectionManager { store: ConnectionStore::new() }
    }

    /// Issues a request on behalf of `requester_id` under the identifier
    /// `id`, which the caller has drawn.
    ///
    /// The request is filed and returned, `Pending`, exactly where nothing
    /// is filed under `id` yet; otherwise the call fails with `DuplicateId`
    /// and nothing changes.
    pub fn create_connection_with_id(
        &mut self,
        id: String,
        requester_id: String,
        label: String,
    ) -> (created: Result<ConnectionRequest, ConnectionError>)
        ensures
            final(self)@.wf(),
            final(self)@ == old(self)@.after_create(id@, requester_id@, label@),
            request_outcome(created) == old(self)@.create_outcome(id@, requester_id@, label@),
    {
        proof {
            use_type_invariant(&*self);
            law_create_keeps_well_formed(self@, id@, requester_id@, label@);
        }
        let request = ConnectionRequest::new(id, requester_id, label);
        let copy = request.clone();
        let mut store = ConnectionStore::new();
        std::mem::swap(&mut store, &mut self.store);
        let filed = store.insert_request(request);
        self.store = store;
        match filed {
            Ok(_) => Ok(copy),
            Err(e) => Err(e),
        }
    }
}

impl ConnectionManager for InMemoryConnectionManager {
    open spec fn state(&self) -> StoreState {
        self@
    }

    fn create_connection(&mut self, requester_id: String, label: String) -> (created: Result<
        ConnectionRequest,
        ConnectionError,
    >) {
        let id = new_id();
        let ghost drawn = id@;
        let created = self.create_connection_with_id(id, requester_id, label);
        proof {
            if created is Err {
                assert(is_identifier(drawn) && old(self)@.requests.contains_key(drawn));
            }
        }
        created
    }

    fn accept_connection(&mut self, request_id: &str, acceptor_id: String, label: String) -> (made:
        Result<Connection, ConnectionError>) {
        proof {
            use_type_invariant(&*self);
            law_accept_keeps_well_formed(self@, request_id@, acceptor_id@, label@);
        }
        let mut store = ConnectionStore::new();
        std::mem::swap(&mut store, &mut self.store);
        let made = match store.get_request(request_id) {
            None => Err(ConnectionError::NotFound),
            Some(request) => {
                if !request.is_pending() {
                    Err(ConnectionError::AlreadyAccepted)
                } else if request.requester_id == acceptor_id {
                    Err(ConnectionError::SelfConnection)
                } else {
                    match store.mark_accepted(request_id) {
                        Err(e) => Err(e),
                        Ok(accepted) => {
                            let connection = Connection {
                                id: accepted.id,
                                requester_id: accepted.requester_id,
                                acceptor_id,
                                label,
                            };
                            store.insert_connection(connection.clone());
                            Ok(connection)
                        },
                    }
                }
            },
        };
        self.store = store;
        made
    }

    fn list_connections(&self, user_id: &str) -> (listed: Vec<Connection>) {
        proof {
            use_type_invariant(self);
        }
        self.store.list_by_user(user_id)
    }
}

} // verus!
