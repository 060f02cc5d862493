//! What holds of the lifecycle in every state: theorems about the model in
//! [`crate::state`], proved once and for all.
//!
//! The executable operations are specified by the transitions of the model,
//! so each theorem here is a statement about what callers of the service
//! observe.

use vstd::prelude::*;
use crate::error::ConnectionError;
use crate::models::{ConnectionView, RequestView};
use crate::state::{Operation, StoreState};

verus! {

/// The empty state is well-formed.
pub proof fn law_empty_is_well_formed()
    ensures
        StoreState::empty().wf(),
{
}

/// Issuing a request keeps the state well-formed, whether the request is
/// filed or refused.
pub proof fn law_create_keeps_well_formed(
    s: StoreState,
    id: Seq<char>,
    requester_id: Seq<char>,
    label: Seq<char>,
)
    requires
        s.wf(),
    ensures
        s.after_create(id, requester_id, label).wf(),
{
    let t = s.after_create(id, requester_id, label);
    if !s.requests.contains_key(id) {
        assert forall|i: int| 0 <= i < t.connections.len() implies {
            let c = #[trigger] t.connections[i];
            &&& t.is_accepted(c.id)
            &&& t.requests[c.id].requester_id == c.requester_id
            &&& c.requester_id != c.acceptor_id
        } by {
            assert(s.is_accepted(s.connections[i].id));
        }
        assert forall|other: Seq<char>| #[trigger] t.is_accepted(other) implies exists|i: int|
            0 <= i < t.connections.len() && (#[trigger] t.connections[i]).id == other by {
            assert(s.is_accepted(other));
        }
    }
}

/// Accepting keeps the state well-formed, whether it succeeds or fails.
pub proof fn law_accept_keeps_well_formed(
    s: StoreState,
    request_id: Seq<char>,
    acceptor_id: Seq<char>,
    label: Seq<char>,
)
    requires
        s.wf(),
    ensures
        s.after_accept(request_id, acceptor_id, label).wf(),
{
    let t = s.after_accept(request_id, acceptor_id, label);
    if let Ok(made) = s.accept_outcome(request_id, acceptor_id, label) {
        assert(t.connections[0] == made);
        assert forall|i: int| 0 < i < t.connections.len() implies t.connections[i]
            == s.connections[i - 1] && t.connections[i].id != request_id by {
            assert(s.is_accepted(s.connections[i - 1].id));
        }
        assert forall|i: int, j: int| 0 <= i < j < t.connections.len() implies t.connections[i].id
            != t.connections[j].id by {
            if 0 < i {
                assert(s.connections[i - 1].id != s.connections[j - 1].id);
            }
        }
        assert forall|i: int| 0 <= i < t.connections.len() implies {
            let c = #[trigger] t.connections[i];
            &&& t.is_accepted(c.id)
            &&& t.requests[c.id].requester_id == c.requester_id
            &&& c.requester_id != c.acceptor_id
        } by {
            if 0 < i {
                assert(s.is_accepted(s.connections[i - 1].id));
            }
        }
        assert forall|other: Seq<char>| #[trigger] t.is_accepted(other) implies exists|i: int|
            0 <= i < t.connections.len() && (#[trigger] t.connections[i]).id == other by {
            if other == request_id {
                assert(t.connections[0].id == other);
            } else {
                assert(s.is_accepted(other));
                let k: int = choose|k: int|
                    0 <= k < s.connections.len() && (#[trigger] s.connections[k]).id == other;
                assert(t.connections[k + 1].id == other);
            }
        }
    }
}

/// A request is issued exactly where its identifier is new. It is then
/// pending, filed under that identifier, and no connection is touched.
pub proof fn law_created_request_is_new_and_pending(
    s: StoreState,
    id: Seq<char>,
    requester_id: Seq<char>,
    label: Seq<char>,
)
    ensures
        s.create_outcome(id, requester_id, label) is Ok <==> !s.requests.contains_key(id),
        s.create_outcome(id, requester_id, label) is Err ==> s.after_create(id, requester_id, label)
            == s,
        s.create_outcome(id, requester_id, label) matches Ok(request) ==> {
            let t = s.after_create(id, requester_id, label);
            &&& request == RequestView::pending(id, requester_id, label)
            &&& t.is_pending(id)
            &&& t.requests[id] == request
            &&& t.requests.remove(id) == s.requests
            &&& t.connections == s.connections
        },
{
    if !s.requests.contains_key(id) {
        let t = s.after_create(id, requester_id, label);
        assert(t.requests.remove(id) =~= s.requests);
    }
}

/// No operation forgets a request: an identifier once issued stays taken,
/// so that every later request gets another one.
pub proof fn law_issued_identifiers_stay_taken(s: StoreState, op: Operation, id: Seq<char>)
    requires
        s.requests.contains_key(id),
    ensures
        s.apply(op).requests.contains_key(id),
        s.apply(op).requests[id].requester_id == s.requests[id].requester_id,
        s.apply(op).requests[id].label == s.requests[id].label,
{
}

/// Acceptance is final: no operation moves an accepted request back, or
/// touches it at all.
pub proof fn law_accepted_is_terminal(s: StoreState, op: Operation, id: Seq<char>)
    requires
        s.is_accepted(id),
    ensures
        s.apply(op).is_accepted(id),
        s.apply(op).requests[id] == s.requests[id],
{
}

/// Accepting an accepted request fails with `AlreadyAccepted`, whoever asks
/// and under whatever label, and changes nothing.
pub proof fn law_accepted_request_refuses_accept(
    s: StoreState,
    request_id: Seq<char>,
    acceptor_id: Seq<char>,
    label: Seq<char>,
)
    requires
        s.is_accepted(request_id),
    ensures
        s.accept_outcome(request_id, acceptor_id, label) == Err::<ConnectionView, ConnectionError>(
            ConnectionError::AlreadyAccepted,
        ),
        s.after_accept(request_id, acceptor_id, label) == s,
{
}

proof fn lemma_count_identified(connections: Seq<ConnectionView>, id: Seq<char>)
    requires
        forall|i: int, j: int|
            0 <= i < j < connections.len() ==> connections[i].id != connections[j].id,
    ensures
        connections.filter(ConnectionView::identified_by(id)).len() == (if exists|i: int|
            0 <= i < connections.len() && (#[trigger] connections[i]).id == id {
            1nat
        } else {
            0nat
        }),
    decreases connections.len(),
{
    reveal(Seq::filter);
    if connections.len() > 0 {
        let front = connections.drop_last();
        let last: int = connections.len() - 1;
        lemma_count_identified(front, id);
        if connections[last].id == id {
            assert forall|i: int| 0 <= i < front.len() implies (#[trigger] front[i]).id != id by {
                assert(connections[i].id != connections[last].id);
            }
        } else {
            if exists|i: int| 0 <= i < connections.len() && (#[trigger] connections[i]).id == id {
                let k: int = choose|i: int|
                    0 <= i < connections.len() && (#[trigger] connections[i]).id == id;
                assert(front[k].id == id);
            }
            if exists|i: int| 0 <= i < front.len() && (#[trigger] front[i]).id == id {
                let k: int = choose|i: int| 0 <= i < front.len() && (#[trigger] front[i]).id == id;
                assert(connections[k].id == id);
            }
        }
    }
}

/// Behind every accepted request stands exactly one connection, and none
/// behind any other identifier.
pub proof fn law_one_connection_per_accepted_request(s: StoreState, id: Seq<char>)
    requires
        s.wf(),
    ensures
        s.connections_with_id(id).len() == (if s.is_accepted(id) {
            1nat
        } else {
            0nat
        }),
{
    lemma_count_identified(s.connections, id);
    if exists|i: int| 0 <= i < s.connections.len() && (#[trigger] s.connections[i]).id == id {
        let k: int = choose|i: int| 0 <= i < s.connections.len() && (#[trigger] s.connections[i]).id == id;
        assert(s.is_accepted(s.connections[k].id));
    }
}

/// Of two attempts to accept one request, the second fails with
/// `AlreadyAccepted` and changes nothing, whoever makes it; after both,
/// exactly one connection carries the identifier of the request.
pub proof fn law_second_accept_is_refused(
    s: StoreState,
    request_id: Seq<char>,
    first_acceptor: Seq<char>,
    first_label: Seq<char>,
    second_acceptor: Seq<char>,
    second_label: Seq<char>,
)
    requires
        s.wf(),
        s.accept_outcome(request_id, first_acceptor, first_label) is Ok,
    ensures
        ({
            let t = s.after_accept(request_id, first_acceptor, first_label);
            let u = t.after_accept(request_id, second_acceptor, second_label);
            &&& t.accept_outcome(request_id, second_acceptor, second_label) == Err::<
                ConnectionView,
                ConnectionError,
            >(ConnectionError::AlreadyAccepted)
            &&& u == t
            &&& u.connections_with_id(request_id).len() == 1
        }),
{
    let t = s.after_accept(request_id, first_acceptor, first_label);
    law_accept_keeps_well_formed(s, request_id, first_acceptor, first_label);
    law_one_connection_per_accepted_request(t, request_id);
}

/// Accepting under an identifier that no request carries fails with
/// `NotFound` and records nothing.
pub proof fn law_unknown_request_is_not_found(
    s: StoreState,
    request_id: Seq<char>,
    acceptor_id: Seq<char>,
    label: Seq<char>,
)
    requires
        !s.requests.contains_key(request_id),
    ensures
        s.accept_outcome(request_id, acceptor_id, label) == Err::<ConnectionView, ConnectionError>(
            ConnectionError::NotFound,
        ),
        s.after_accept(request_id, acceptor_id, label) == s,
{
}

/// The user who issued a request cannot accept it: the attempt fails with
/// `SelfConnection`, and the request stays pending.
pub proof fn law_requester_cannot_accept(s: StoreState, request_id: Seq<char>, label: Seq<char>)
    requires
        s.is_pending(request_id),
    ensures
        s.accept_outcome(request_id, s.requests[request_id].requester_id, label) == Err::<
            ConnectionView,
            ConnectionError,
        >(ConnectionError::SelfConnection),
        s.after_accept(request_id, s.requests[request_id].requester_id, label) == s,
{
}

/// Acceptance succeeds exactly on a pending request and an acceptor other
/// than its requester. The connection made joins the two under the label
/// given at acceptance, and both see it at the head of their listings.
pub proof fn law_accepted_connection_is_listed_for_both(
    s: StoreState,
    request_id: Seq<char>,
    acceptor_id: Seq<char>,
    label: Seq<char>,
)
    ensures
        s.accept_outcome(request_id, acceptor_id, label) is Ok <==> s.is_pending(request_id)
            && s.requests[request_id].requester_id != acceptor_id,
        s.accept_outcome(request_id, acceptor_id, label) matches Ok(made) ==> {
            let requester_id = s.requests[request_id].requester_id;
            let t = s.after_accept(request_id, acceptor_id, label);
            &&& made.id == request_id
            &&& made.label == label
            &&& made.participants() == set![requester_id, acceptor_id]
            &&& t.is_accepted(request_id)
            &&& t.connections_of(requester_id).first() == made
            &&& t.connections_of(acceptor_id).first() == made
            &&& t.connections_of(requester_id).contains(made)
            &&& t.connections_of(acceptor_id).contains(made)
        },
{
    if let Ok(made) = s.accept_outcome(request_id, acceptor_id, label) {
        let requester_id = s.requests[request_id].requester_id;
        let t = s.after_accept(request_id, acceptor_id, label);
        s.connections.lemma_filter_prepend(made, ConnectionView::involving(requester_id));
        s.connections.lemma_filter_prepend(made, ConnectionView::involving(acceptor_id));
        assert(t.connections_of(requester_id)[0] == made);
        assert(t.connections_of(acceptor_id)[0] == made);
    }
}

/// An accepted connection touches the listing of nobody but its two
/// participants.
pub proof fn law_accept_leaves_other_listings(
    s: StoreState,
    request_id: Seq<char>,
    acceptor_id: Seq<char>,
    label: Seq<char>,
    user_id: Seq<char>,
)
    requires
        s.accept_outcome(request_id, acceptor_id, label) matches Ok(made) ==> !made.involves(
            user_id,
        ),
    ensures
        s.after_accept(request_id, acceptor_id, label).connections_of(user_id) == s.connections_of(
            user_id,
        ),
{
    if let Ok(made) = s.accept_outcome(request_id, acceptor_id, label) {
        s.connections.lemma_filter_prepend(made, ConnectionView::involving(user_id));
    }
}

/// A listing holds the connections in which the user takes part, and no
/// others.
pub proof fn law_listing_is_exact(s: StoreState, user_id: Seq<char>, connection: ConnectionView)
    ensures
        s.connections_of(user_id).contains(connection) <==> s.connections.contains(connection)
            && connection.involves(user_id),
{
    let involved = ConnectionView::involving(user_id);
    if s.connections_of(user_id).contains(connection) {
        s.connections.lemma_filter_contains_rev(involved, connection);
        let k: int = choose|k: int|
            0 <= k < s.connections_of(user_id).len() && s.connections_of(user_id)[k] == connection;
        s.connections.lemma_filter_pred(involved, k);
    }
    if s.connections.contains(connection) && connection.involves(user_id) {
        let k: int = choose|k: int| 0 <= k < s.connections.len() && s.connections[k] == connection;
        s.connections.lemma_filter_contains(involved, k);
    }
}

/// The listing of a user who takes part in no connection is empty. In
/// particular every listing is empty where nothing has been accepted yet.
pub proof fn law_listing_without_connections_is_empty(s: StoreState, user_id: Seq<char>)
    requires
        forall|i: int| 0 <= i < s.connections.len() ==> !s.connections[i].involves(user_id),
    ensures
        s.connections_of(user_id) == Seq::<ConnectionView>::empty(),
{
    let listed = s.connections_of(user_id);
    if listed.len() > 0 {
        law_listing_is_exact(s, user_id, listed[0]);
        assert(listed.contains(listed[0]));
    }
    assert(listed =~= Seq::empty());
}

/// Issuing a request changes no listing.
pub proof fn law_create_leaves_listings(
    s: StoreState,
    id: Seq<char>,
    requester_id: Seq<char>,
    label: Seq<char>,
    user_id: Seq<char>,
)
    ensures
        s.after_create(id, requester_id, label).connections_of(user_id) == s.connections_of(
            user_id,
        ),
{
}

/// Any run of operations from a well-formed state ends in a well-formed
/// state.
pub proof fn law_run_keeps_well_formed(s: StoreState, ops: Seq<Operation>)
    requires
        s.wf(),
    ensures
        s.run(ops).wf(),
    decreases ops.len(),
{
    if ops.len() > 0 {
        law_run_keeps_well_formed(s, ops.drop_last());
        let before = s.run(ops.drop_last());
        match ops.last() {
            Operation::Create { id, requester_id, label } => {
                law_create_keeps_well_formed(before, id, requester_id, label);
            },
            Operation::Accept { request_id, acceptor_id, label } => {
                law_accept_keeps_well_formed(before, request_id, acceptor_id, label);
            },
        }
    }
}

/// At-most-once acceptance: in any run of operations, in whatever order the
/// calls of concurrent callers come to be applied, at most one acceptance of
/// a given request succeeds, and none where the request was accepted
/// before. The request is accepted at the end exactly if it was accepted at
/// the start or one acceptance succeeded, and then one connection stands
/// behind it.
pub proof fn law_at_most_one_accept_in_any_run(s: StoreState, ops: Seq<Operation>, id: Seq<char>)
    requires
        s.wf(),
    ensures
        s.times_accepted(ops, id) <= 1,
        s.is_accepted(id) ==> s.times_accepted(ops, id) == 0,
        s.run(ops).is_accepted(id) <==> s.is_accepted(id) || s.times_accepted(ops, id) == 1,
        s.run(ops).connections_with_id(id).len() == (if s.run(ops).is_accepted(id) {
            1nat
        } else {
            0nat
        }),
    decreases ops.len(),
{
    law_run_keeps_well_formed(s, ops);
    law_one_connection_per_accepted_request(s.run(ops), id);
    if ops.len() > 0 {
        law_at_most_one_accept_in_any_run(s, ops.drop_last(), id);
    }
}

/// No run of operations forgets a request or changes who issued it and
/// under which label.
pub proof fn law_run_keeps_requests(s: StoreState, ops: Seq<Operation>, id: Seq<char>)
    requires
        s.requests.contains_key(id),
    ensures
        s.run(ops).requests.contains_key(id),
        s.run(ops).requests[id].requester_id == s.requests[id].requester_id,
        s.run(ops).requests[id].label == s.requests[id].label,
    decreases ops.len(),
{
    if ops.len() > 0 {
        law_run_keeps_requests(s, ops.drop_last(), id);
        law_issued_identifiers_stay_taken(s.run(ops.drop_last()), ops.last(), id);
    }
}

/// An identifier is issued at most once: in any run of operations at most
/// one request is issued under a given identifier, and none where one was
/// filed under it before. A request is filed under the identifier at the end
/// exactly if one was filed at the start or issued in the run.
pub proof fn law_identifier_issued_at_most_once(s: StoreState, ops: Seq<Operation>, id: Seq<char>)
    ensures
        s.times_issued(ops, id) <= 1,
        s.requests.contains_key(id) ==> s.times_issued(ops, id) == 0,
        s.run(ops).requests.contains_key(id) <==> s.requests.contains_key(id) || s.times_issued(
            ops,
            id,
        ) == 1,
    decreases ops.len(),
{
    if ops.len() > 0 {
        law_identifier_issued_at_most_once(s, ops.drop_last(), id);
    }
}

/// Exactly-once acceptance: where a run of operations holds an attempt to
/// accept a pending request by someone other than its requester, exactly one
/// acceptance of that request succeeds in the run, whatever else the run
/// holds and in whatever order.
pub proof fn law_exactly_one_accept_among_attempts(
    s: StoreState,
    ops: Seq<Operation>,
    id: Seq<char>,
    k: int,
)
    requires
        s.wf(),
        s.is_pending(id),
        0 <= k < ops.len(),
        ops[k] matches Operation::Accept { request_id, acceptor_id, .. } && request_id == id
            && acceptor_id != s.requests[id].requester_id,
    ensures
        s.times_accepted(ops, id) == 1,
        s.run(ops).is_accepted(id),
    decreases ops.len(),
{
    let earlier = ops.drop_last();
    let before = s.run(earlier);
    law_at_most_one_accept_in_any_run(s, earlier, id);
    law_at_most_one_accept_in_any_run(s, ops, id);
    law_run_keeps_requests(s, earlier, id);
    if k < ops.len() - 1 {
        law_exactly_one_accept_among_attempts(s, earlier, id, k);
    }
}

/// Connections are permanent: an operation adds at most one connection, at
/// the head, and leaves all others as they were.
pub proof fn law_connections_are_permanent(s: StoreState, op: Operation)
    ensures
        ({
            let t = s.apply(op);
            let added: int = t.connections.len() - s.connections.len();
            &&& 0 <= added <= 1
            &&& t.connections.skip(added) == s.connections
        }),
{
    let t = s.apply(op);
    let added: int = t.connections.len() - s.connections.len();
    assert(t.connections.skip(added) =~= s.connections);
}

/// Every connection joins two different users.
pub proof fn law_connection_joins_two_users(s: StoreState, i: int)
    requires
        s.wf(),
        0 <= i < s.connections.len(),
    ensures
        s.connections[i].requester_id != s.connections[i].acceptor_id,
        s.connections[i].participants().len() == 2,
        s.is_accepted(s.connections[i].id),
{
    let c = s.connections[i];
    assert(c.participants() =~= Set::empty().insert(c.requester_id).insert(c.acceptor_id));
}

} // verus!
