//! The store: the one owner of every request and connection record.
//!
//! Records go in and copies come out; no caller ever holds a reference into
//! the store. The store files requests by identifier and refuses a second
//! request under an identifier it already holds. It does not judge whether
//! the records make sense together: that is the manager's part.

use vstd::prelude::*;
use crate::error::ConnectionError;
use crate::models::{Connection, ConnectionRequest, ConnectionStatus, ConnectionView, RequestView};
use crate::state::StoreState;

verus! {

/// The contents of connection records, one for one.
pub open spec fn connection_views(connections: Seq<Connection>) -> Seq<ConnectionView> {
    connections.map_values(|c: Connection| c@)
}

/// The contents of connection records that are kept oldest first, turned
/// round so that the most recent comes first.
spec fn newest_first(connections: Seq<Connection>) -> Seq<ConnectionView> {
    connection_views(connections).reverse()
}

/// Whether the record at position `i` carries the identifier `id`.
spec fn filed_at(requests: Seq<ConnectionRequest>, i: int, id: Seq<char>) -> bool {
    0 <= i < requests.len() && requests[i].id@ == id
}

/// No two records share an identifier.
spec fn distinct_ids(requests: Seq<ConnectionRequest>) -> bool {
    forall|i: int, j: int|
        0 <= i < j < requests.len() ==> (#[trigger] requests[i]).id@ != (#[trigger] requests[j]).id@
}

/// The records as a map from identifier to content.
spec fn filed(requests: Seq<ConnectionRequest>) -> Map<Seq<char>, RequestView> {
    Map::new(
        |id: Seq<char>| exists|i: int| filed_at(requests, i, id),
        |id: Seq<char>| requests[choose|i: int| filed_at(requests, i, id)]@,
    )
}

/// Where identifiers are distinct, each record is found under its own.
proof fn lemma_filed_lookup(requests: Seq<ConnectionRequest>, i: int)
    requires
        distinct_ids(requests),
        0 <= i < requests.len(),
    ensures
        filed(requests).contains_key(requests[i].id@),
        filed(requests)[requests[i].id@] == requests[i]@,
{
    let id = requests[i].id@;
    assert(filed_at(requests, i, id));
    let k: int = choose|k: int| filed_at(requests, k, id);
    assert(k == i) by {
        if k < i {
            assert(requests[k].id@ != requests[i].id@);
        } else if i < k {
            assert(requests[i].id@ != requests[k].id@);
        }
    }
}

/// Whatever is found under an identifier carries that identifier.
proof fn lemma_filed_keyed(requests: Seq<ConnectionRequest>)
    ensures
        forall|id: Seq<char>| #[trigger]
            filed(requests).contains_key(id) ==> filed(requests)[id].id == id,
{
    assert forall|id: Seq<char>| #[trigger] filed(requests).contains_key(id) implies filed(
        requests,
    )[id].id == id by {
        let k: int = choose|k: int| filed_at(requests, k, id);
        assert(filed_at(requests, k, id));
    }
}

/// Appending a record with a new identifier inserts it into the map.
proof fn lemma_filed_push(requests: Seq<ConnectionRequest>, request: ConnectionRequest)
    requires
        distinct_ids(requests),
        !filed(requests).contains_key(request.id@),
    ensures
        distinct_ids(requests.push(request)),
        filed(requests.push(request)) == filed(requests).insert(request.id@, request@),
{
    let longer = requests.push(request);
    let n: int = requests.len() as int;
    assert forall|i: int, j: int| 0 <= i < j < longer.len() implies (#[trigger] longer[i]).id@ != (
    #[trigger] longer[j]).id@ by {
        if j == n {
            assert(!filed_at(requests, i, request.id@));
        } else {
            assert(requests[i].id@ != requests[j].id@);
        }
    }
    assert forall|id: Seq<char>|
        filed(longer).contains_key(id) <==> filed(requests).insert(
            request.id@,
            request@,
        ).contains_key(id) by {
        if filed(longer).contains_key(id) {
            let k: int = choose|k: int| filed_at(longer, k, id);
            if k < n {
                assert(filed_at(requests, k, id));
            }
        }
        if filed(requests).contains_key(id) {
            let k: int = choose|k: int| filed_at(requests, k, id);
            assert(filed_at(longer, k, id));
        }
        if id == request.id@ {
            assert(filed_at(longer, n, id));
        }
    }
    assert forall|id: Seq<char>| filed(longer).contains_key(id) implies filed(longer)[id] == filed(
        requests,
    ).insert(request.id@, request@)[id] by {
        let k: int = choose|k: int| filed_at(longer, k, id);
        lemma_filed_lookup(longer, k);
        if k < n {
            lemma_filed_lookup(requests, k);
        }
    }
    assert(filed(longer) =~= filed(requests).insert(request.id@, request@));
}

/// Replacing a record by one with the same identifier overwrites its entry
/// in the map.
proof fn lemma_filed_update(requests: Seq<ConnectionRequest>, i: int, request: ConnectionRequest)
    requires
        distinct_ids(requests),
        0 <= i < requests.len(),
        request.id@ == requests[i].id@,
    ensures
        distinct_ids(requests.update(i, request)),
        filed(requests.update(i, request)) == filed(requests).insert(request.id@, request@),
{
    let changed = requests.update(i, request);
    assert forall|a: int, b: int| 0 <= a < b < changed.len() implies (#[trigger] changed[a]).id@
        != (#[trigger] changed[b]).id@ by {
        assert(requests[a].id@ != requests[b].id@);
    }
    assert forall|id: Seq<char>|
        filed(changed).contains_key(id) <==> filed(requests).insert(
            request.id@,
            request@,
        ).contains_key(id) by {
        if filed(changed).contains_key(id) {
            let k: int = choose|k: int| filed_at(changed, k, id);
            assert(filed_at(requests, k, id));
        }
        if filed(requests).contains_key(id) {
            let k: int = choose|k: int| filed_at(requests, k, id);
            assert(filed_at(changed, k, id));
        }
        if id == request.id@ {
            assert(filed_at(changed, i, id));
        }
    }
    assert forall|id: Seq<char>| filed(changed).contains_key(id) implies filed(changed)[id]
        == filed(requests).insert(request.id@, request@)[id] by {
        let k: int = choose|k: int| filed_at(changed, k, id);
        lemma_filed_lookup(changed, k);
        lemma_filed_lookup(requests, k);
    }
    assert(filed(changed) =~= filed(requests).insert(request.id@, request@));
}

/// In-memory storage for requests and connections.
///
/// Both kinds of record are kept in the order of their arrival. No two
/// requests share an identifier: this is the invariant of the type, and the
/// reason why a method that changes a field first moves the field out of
/// `self` and moves it back when the change is complete.
pub struct ConnectionStore {
    requests: Vec<ConnectionRequest>,
    connections: Vec<Connection>,
}

impl View for ConnectionStore {
    type V = StoreState;

    closed spec fn view(&self) -> StoreState {
        StoreState {
            requests: filed(self.requests@),
            connections: newest_first(self.connections@),
        }
    }
}

impl ConnectionStore {
    #[verifier::type_invariant]
    spec fn inv(self) -> bool {
        distinct_ids(self.requests@)
    }

    /// A store that holds nothing.
    pub fn new() -> (store: Self)
        ensures
            store@ == StoreState::empty(),
    {
        let store = ConnectionStore { requests: Vec::new(), connections: Vec::new() };
        assert(store@.requests =~= Map::empty());
        assert(store@.connections =~= Seq::empty());
        store
    }

    /// The position of the request filed under `id`.
    fn position(&self, id: &String) -> (found: Option<usize>)
        ensures
            match found {
                Some(i) => i < self.requests.len() && self.requests[i as int].id@ == id@,
                None => !self@.requests.contains_key(id@),
            },
    {
        let mut i: usize = 0;
        while i < self.requests.len()
            invariant
                i <= self.requests.len(),
                forall|k: int| 0 <= k < i ==> !filed_at(self.requests@, k, id@),
            decreases self.requests.len() - i,
        {
            if self.requests[i].id == *id {
                return Some(i);
            }
            i += 1;
        }
        None
    }

    /// Files `request` under its identifier. Refused with `DuplicateId`,
    /// and nothing changes, where a request is filed under it already.
    pub fn insert_request(&mut self, request: ConnectionRequest) -> (done: Result<
        (),
        ConnectionError,
    >)
        ensures
            final(self)@.keyed_by_id(),
            match done {
                Ok(_) => {
                    &&& !old(self)@.requests.contains_key(request@.id)
                    &&& final(self)@ == old(self)@.with_request(request@)
                },
                Err(e) => {
                    &&& e == ConnectionError::DuplicateId
                    &&& old(self)@.requests.contains_key(request@.id)
                    &&& final(self)@ == old(self)@
                },
            },
    {
        proof {
            use_type_invariant(&*self);
            lemma_filed_keyed(self.requests@);
        }
        match self.position(&request.id) {
            Some(i) => {
                proof {
                    lemma_filed_lookup(self.requests@, i as int);
                }
                Err(ConnectionError::DuplicateId)
            },
            None => {
                proof {
                    lemma_filed_push(self.requests@, request);
                    lemma_filed_keyed(self.requests@.push(request));
                }
                let mut requests: Vec<ConnectionRequest> = Vec::new();
                std::mem::swap(&mut requests, &mut self.requests);
                requests.push(request);
                self.requests = requests;
                Ok(())
            },
        }
    }

    /// A copy of the request filed under `id`, if there is one.
    pub fn get_request(&self, id: &str) -> (found: Option<ConnectionRequest>)
        ensures
            self@.keyed_by_id(),
            match found {
                Some(request) => self@.request(id@) == Some(request@),
                None => self@.request(id@).is_none(),
            },
    {
        proof {
            use_type_invariant(self);
            lemma_filed_keyed(self.requests@);
        }
        let key = id.to_owned();
        match self.position(&key) {
            Some(i) => {
                proof {
                    lemma_filed_lookup(self.requests@, i as int);
                }
                Some(self.requests[i].clone())
            },
            None => None,
        }
    }

    /// Moves the request filed under `id` from `Pending` to `Accepted` and
    /// returns a copy of it as it now stands. Refused, and nothing changes,
    /// with `NotFound` where no request is filed under `id` and with
    /// `AlreadyAccepted` where the request is not pending. The test and the
    /// move are one step: of two calls for one request, one is refused.
    pub fn mark_accepted(&mut self, id: &str) -> (marked: Result<
        ConnectionRequest,
        ConnectionError,
    >)
        ensures
            final(self)@.keyed_by_id(),
            match marked {
                Ok(request) => {
                    &&& old(self)@.is_pending(id@)
                    &&& request@ == old(self)@.requests[id@].accepted()
                    &&& final(self)@ == old(self)@.with_accepted(id@)
                },
                Err(e) => {
                    &&& final(self)@ == old(self)@
                    &&& e == if old(self)@.requests.contains_key(id@) {
                        ConnectionError::AlreadyAccepted
                    } else {
                        ConnectionError::NotFound
                    }
                    &&& !old(self)@.is_pending(id@)
                },
            },
    {
        proof {
            use_type_invariant(&*self);
            lemma_filed_keyed(self.requests@);
        }
        let key = id.to_owned();
        match self.position(&key) {
            None => Err(ConnectionError::NotFound),
            Some(i) => {
                proof {
                    lemma_filed_lookup(self.requests@, i as int);
                }
                let current = &self.requests[i];
                match current.status {
                    ConnectionStatus::Accepted => Err(ConnectionError::AlreadyAccepted),
                    ConnectionStatus::Pending => {
                        let accepted = ConnectionRequest {
                            id: current.id.clone(),
                            requester_id: current.requester_id.clone(),
                            label: current.label.clone(),
                            status: ConnectionStatus::Accepted,
                        };
                        let copy = accepted.clone();
                        proof {
                            lemma_filed_update(self.requests@, i as int, accepted);
                            lemma_filed_keyed(self.requests@.update(i as int, accepted));
                        }
                        let mut requests: Vec<ConnectionRequest> = Vec::new();
                        std::mem::swap(&mut requests, &mut self.requests);
                        requests.set(i, accepted);
                        self.requests = requests;
                        Ok(copy)
                    },
                }
            },
        }
    }

    /// Records `connection` as the most recent one.
    pub fn insert_connection(&mut self, connection: Connection)
        ensures
            final(self)@ == old(self)@.with_connection(connection@),
    {
        proof {
            use_type_invariant(&*self);
        }
        let ghost before = self.connections@;
        let mut connections: Vec<Connection> = Vec::new();
        std::mem::swap(&mut connections, &mut self.connections);
        connections.push(connection);
        self.connections = connections;
        assert(newest_first(before.push(connection)) =~= seq![connection@] + newest_first(before));
    }

    /// Copies of the connections in which `user_id` takes part, most recent
    /// first. The result is a snapshot: later changes to the store do not
    /// show in it.
    pub fn list_by_user(&self, user_id: &str) -> (listed: Vec<Connection>)
        ensures
            connection_views(listed@) == self@.connections_of(user_id@),
    {
        let key = user_id.to_owned();
        let ghost all = newest_first(self.connections@);
        let ghost involved = ConnectionView::involving(user_id@);
        let n: usize = self.connections.len();
        let mut listed: Vec<Connection> = Vec::new();
        let mut taken: usize = 0;
        proof {
            reveal(Seq::filter);
            assert(connection_views(listed@) =~= all.take(0).filter(involved));
        }
        while taken < n
            invariant
                n == self.connections.len(),
                taken <= n,
                key@ == user_id@,
                all == newest_first(self.connections@),
                involved == ConnectionView::involving(user_id@),
                connection_views(listed@) == all.take(taken as int).filter(involved),
            decreases n - taken,
        {
            let connection = &self.connections[n - 1 - taken];
            proof {
                assert(all.take(taken + 1) =~= all.take(taken as int).push(connection@));
                all.take(taken as int).lemma_filter_push(connection@, involved);
            }
            if connection.requester_id == key || connection.acceptor_id == key {
                let ghost before = listed@;
                let copy = connection.clone();
                listed.push(copy);
                assert(connection_views(before.push(copy)) =~= connection_views(before).push(
                    connection@,
                ));
            }
            taken += 1;
        }
        proof {
            assert(all.take(n as int) =~= all);
        }
        listed
    }
}

} // verus!
