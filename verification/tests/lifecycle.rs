use friends_connect::connection::ConnectionManager;
use friends_connect::error::ConnectionError;
use friends_connect::memory::InMemoryConnectionManager;
use friends_connect::models::{Connection, ConnectionRequest, ConnectionStatus};

fn text(s: &str) -> String {
    s.to_string()
}

fn connection(id: &str, requester: &str, acceptor: &str, label: &str) -> Connection {
    Connection {
        id: text(id),
        requester_id: text(requester),
        acceptor_id: text(acceptor),
        label: text(label),
    }
}

#[test]
fn new_manager_lists_nothing() {
    let manager = InMemoryConnectionManager::new();
    assert_eq!(manager.list_connections("alice"), Vec::<Connection>::new());
    assert_eq!(manager.list_connections(""), Vec::<Connection>::new());
}

#[test]
fn create_returns_pending_request_with_given_fields() {
    let mut manager = InMemoryConnectionManager::new();
    let request = manager
        .create_connection(text("alice"), text("Friend Request"))
        .unwrap();
    assert_eq!(request.status, ConnectionStatus::Pending);
    assert_eq!(request.requester_id, "alice");
    assert_eq!(request.label, "Friend Request");
    assert_eq!(request.id.len(), 36);
}

#[test]
fn create_accepts_empty_label() {
    let mut manager = InMemoryConnectionManager::new();
    let request = manager.create_connection(text("alice"), text("")).unwrap();
    assert_eq!(request.label, "");
    assert_eq!(request.status, ConnectionStatus::Pending);
}

#[test]
fn created_identifiers_are_pairwise_different() {
    let mut manager = InMemoryConnectionManager::new();
    let mut seen: Vec<String> = Vec::new();
    for _ in 0..200 {
        let request = manager
            .create_connection(text("alice"), text("Friend Request"))
            .unwrap();
        assert!(!seen.contains(&request.id));
        seen.push(request.id);
    }
    assert_eq!(seen.len(), 200);
}

#[test]
fn create_with_id_files_the_request() {
    let mut manager = InMemoryConnectionManager::new();
    let request = manager
        .create_connection_with_id(text("r1"), text("alice"), text("Friend Request"))
        .unwrap();
    assert_eq!(
        request,
        ConnectionRequest {
            id: text("r1"),
            requester_id: text("alice"),
            label: text("Friend Request"),
            status: ConnectionStatus::Pending,
        }
    );
}

#[test]
fn create_with_taken_id_is_duplicate() {
    let mut manager = InMemoryConnectionManager::new();
    manager
        .create_connection_with_id(text("r1"), text("alice"), text("first"))
        .unwrap();
    let second = manager.create_connection_with_id(text("r1"), text("dave"), text("second"));
    assert_eq!(second, Err(ConnectionError::DuplicateId));
    // The request filed first is untouched: bob connects to alice, not to dave.
    let made = manager.accept_connection("r1", text("bob"), text("Friend")).unwrap();
    assert_eq!(made, connection("r1", "alice", "bob", "Friend"));
}

#[test]
fn create_with_id_of_accepted_request_is_duplicate() {
    let mut manager = InMemoryConnectionManager::new();
    manager
        .create_connection_with_id(text("r1"), text("alice"), text("first"))
        .unwrap();
    manager.accept_connection("r1", text("bob"), text("Friend")).unwrap();
    let again = manager.create_connection_with_id(text("r1"), text("alice"), text("again"));
    assert_eq!(again, Err(ConnectionError::DuplicateId));
    assert_eq!(manager.list_connections("alice").len(), 1);
}

#[test]
fn accept_makes_connection_with_final_label() {
    let mut manager = InMemoryConnectionManager::new();
    let request = manager
        .create_connection(text("A"), text("Friend Request"))
        .unwrap();
    let made = manager
        .accept_connection(&request.id, text("B"), text("Friend"))
        .unwrap();
    assert_eq!(made.id, request.id);
    assert_eq!(made.requester_id, "A");
    assert_eq!(made.acceptor_id, "B");
    assert_eq!(made.label, "Friend");
}

#[test]
fn accepted_connection_is_listed_for_both_participants() {
    let mut manager = InMemoryConnectionManager::new();
    let request = manager
        .create_connection(text("A"), text("Friend Request"))
        .unwrap();
    let made = manager
        .accept_connection(&request.id, text("B"), text("Friend"))
        .unwrap();
    let for_a = manager.list_connections("A");
    let for_b = manager.list_connections("B");
    assert!(for_a.contains(&made));
    assert!(for_b.contains(&made));
    assert!(for_a.iter().any(|c| {
        c.label == "Friend"
            && ((c.requester_id == "A" && c.acceptor_id == "B")
                || (c.requester_id == "B" && c.acceptor_id == "A"))
    }));
    assert_eq!(for_a, for_b);
}

#[test]
fn second_accept_fails_with_already_accepted() {
    let mut manager = InMemoryConnectionManager::new();
    let request = manager
        .create_connection(text("A"), text("Friend Request"))
        .unwrap();
    let first = manager.accept_connection(&request.id, text("B"), text("Friend"));
    let second = manager.accept_connection(&request.id, text("B"), text("Friend"));
    assert!(first.is_ok());
    assert_eq!(second, Err(ConnectionError::AlreadyAccepted));
    let with_id = |listed: Vec<Connection>| listed.iter().filter(|c| c.id == request.id).count();
    assert_eq!(with_id(manager.list_connections("A")), 1);
    assert_eq!(with_id(manager.list_connections("B")), 1);
}

#[test]
fn second_accept_by_another_user_changes_nothing() {
    let mut manager = InMemoryConnectionManager::new();
    manager
        .create_connection_with_id(text("r1"), text("A"), text("Friend Request"))
        .unwrap();
    manager.accept_connection("r1", text("B"), text("Friend")).unwrap();
    let second = manager.accept_connection("r1", text("C"), text("Other"));
    assert_eq!(second, Err(ConnectionError::AlreadyAccepted));
    assert_eq!(manager.list_connections("C"), Vec::<Connection>::new());
    assert_eq!(manager.list_connections("A"), vec![connection("r1", "A", "B", "Friend")]);
}

#[test]
fn second_accept_by_requester_is_already_accepted() {
    // The order of the checks: the state of the request comes before the
    // comparison of the two users.
    let mut manager = InMemoryConnectionManager::new();
    manager
        .create_connection_with_id(text("r1"), text("A"), text("Friend Request"))
        .unwrap();
    manager.accept_connection("r1", text("B"), text("Friend")).unwrap();
    let second = manager.accept_connection("r1", text("A"), text("Friend"));
    assert_eq!(second, Err(ConnectionError::AlreadyAccepted));
}

#[test]
fn accept_of_unknown_id_is_not_found() {
    let mut manager = InMemoryConnectionManager::new();
    let made = manager.accept_connection("no-such-request", text("B"), text("Friend"));
    assert_eq!(made, Err(ConnectionError::NotFound));
    assert_eq!(manager.list_connections("B"), Vec::<Connection>::new());
}

#[test]
fn accept_of_unknown_id_leaves_other_requests_alone() {
    let mut manager = InMemoryConnectionManager::new();
    manager
        .create_connection_with_id(text("r1"), text("A"), text("Friend Request"))
        .unwrap();
    let made = manager.accept_connection("r2", text("B"), text("Friend"));
    assert_eq!(made, Err(ConnectionError::NotFound));
    assert_eq!(manager.list_connections("A"), Vec::<Connection>::new());
    assert_eq!(manager.list_connections("B"), Vec::<Connection>::new());
    // r1 is still pending.
    assert!(manager.accept_connection("r1", text("B"), text("Friend")).is_ok());
}

#[test]
fn accept_by_requester_is_self_connection() {
    let mut manager = InMemoryConnectionManager::new();
    manager
        .create_connection_with_id(text("r1"), text("A"), text("Friend Request"))
        .unwrap();
    let made = manager.accept_connection("r1", text("A"), text("Friend"));
    assert_eq!(made, Err(ConnectionError::SelfConnection));
    assert_eq!(manager.list_connections("A"), Vec::<Connection>::new());
}

#[test]
fn request_stays_pending_after_self_connection() {
    let mut manager = InMemoryConnectionManager::new();
    manager
        .create_connection_with_id(text("r1"), text("A"), text("Friend Request"))
        .unwrap();
    assert_eq!(
        manager.accept_connection("r1", text("A"), text("Friend")),
        Err(ConnectionError::SelfConnection)
    );
    let made = manager.accept_connection("r1", text("B"), text("Friend")).unwrap();
    assert_eq!(made, connection("r1", "A", "B", "Friend"));
}

#[test]
fn listing_without_connections_is_empty() {
    let mut manager = InMemoryConnectionManager::new();
    manager
        .create_connection_with_id(text("r1"), text("A"), text("Friend Request"))
        .unwrap();
    // A pending request is no connection.
    assert_eq!(manager.list_connections("A"), Vec::<Connection>::new());
    assert_eq!(manager.list_connections("never-logged-in"), Vec::<Connection>::new());
}

#[test]
fn listing_is_most_recent_first() {
    let mut manager = InMemoryConnectionManager::new();
    for (id, acceptor) in [("r1", "B"), ("r2", "C"), ("r3", "D")] {
        manager
            .create_connection_with_id(text(id), text("A"), text("Friend Request"))
            .unwrap();
        manager.accept_connection(id, text(acceptor), text("Friend")).unwrap();
    }
    assert_eq!(
        manager.list_connections("A"),
        vec![
            connection("r3", "A", "D", "Friend"),
            connection("r2", "A", "C", "Friend"),
            connection("r1", "A", "B", "Friend"),
        ]
    );
    assert_eq!(manager.list_connections("C"), vec![connection("r2", "A", "C", "Friend")]);
}

#[test]
fn listing_holds_only_the_users_connections() {
    let mut manager = InMemoryConnectionManager::new();
    manager
        .create_connection_with_id(text("r1"), text("A"), text("one"))
        .unwrap();
    manager
        .create_connection_with_id(text("r2"), text("C"), text("two"))
        .unwrap();
    manager.accept_connection("r1", text("B"), text("AB")).unwrap();
    manager.accept_connection("r2", text("B"), text("CB")).unwrap();
    assert_eq!(manager.list_connections("A"), vec![connection("r1", "A", "B", "AB")]);
    assert_eq!(manager.list_connections("C"), vec![connection("r2", "C", "B", "CB")]);
    assert_eq!(
        manager.list_connections("B"),
        vec![connection("r2", "C", "B", "CB"), connection("r1", "A", "B", "AB")]
    );
}

#[test]
fn listing_is_a_snapshot() {
    let mut manager = InMemoryConnectionManager::new();
    manager
        .create_connection_with_id(text("r1"), text("A"), text("Friend Request"))
        .unwrap();
    manager.accept_connection("r1", text("B"), text("Friend")).unwrap();
    let mut listed = manager.list_connections("A");
    listed[0].label = text("changed");
    listed.clear();
    assert_eq!(manager.list_connections("A"), vec![connection("r1", "A", "B", "Friend")]);
}

#[test]
fn two_users_may_connect_more_than_once() {
    let mut manager = InMemoryConnectionManager::new();
    manager
        .create_connection_with_id(text("r1"), text("A"), text("Friend Request"))
        .unwrap();
    manager
        .create_connection_with_id(text("r2"), text("B"), text("Friend Request"))
        .unwrap();
    manager.accept_connection("r1", text("B"), text("Friend")).unwrap();
    manager.accept_connection("r2", text("A"), text("Friend")).unwrap();
    assert_eq!(
        manager.list_connections("A"),
        vec![connection("r2", "B", "A", "Friend"), connection("r1", "A", "B", "Friend")]
    );
}

#[test]
fn example_scenario() {
    let mut manager = InMemoryConnectionManager::new();
    let r1 = manager
        .create_connection(text("alice"), text("Friend Request"))
        .unwrap();
    assert_eq!(r1.status, ConnectionStatus::Pending);
    let c1 = manager
        .accept_connection(&r1.id, text("bob"), text("Friend"))
        .unwrap();
    assert_eq!(c1, connection(&r1.id, "alice", "bob", "Friend"));
    assert_eq!(manager.list_connections("alice"), vec![c1.clone()]);
    assert_eq!(manager.list_connections("bob"), vec![c1.clone()]);
    assert_eq!(
        manager.accept_connection(&r1.id, text("carol"), text("Friend")),
        Err(ConnectionError::AlreadyAccepted)
    );
    assert_eq!(manager.list_connections("carol"), Vec::<Connection>::new());
}

#[test]
fn interleaved_accepts_succeed_once_per_request() {
    // Whatever the order in which the calls of several callers are applied,
    // each request is accepted once.
    let callers = ["B", "C", "D", "E"];
    for first in 0..callers.len() {
        let mut manager = InMemoryConnectionManager::new();
        manager
            .create_connection_with_id(text("r1"), text("A"), text("Friend Request"))
            .unwrap();
        let mut successes = 0;
        let mut refusals = 0;
        for turn in 0..callers.len() {
            let caller = callers[(first + turn) % callers.len()];
            match manager.accept_connection("r1", text(caller), text("Friend")) {
                Ok(made) => {
                    successes += 1;
                    assert_eq!(made.acceptor_id, callers[first]);
                }
                Err(e) => {
                    refusals += 1;
                    assert_eq!(e, ConnectionError::AlreadyAccepted);
                }
            }
        }
        assert_eq!(successes, 1);
        assert_eq!(refusals, callers.len() - 1);
        assert_eq!(manager.list_connections("A").len(), 1);
    }
}

#[test]
fn create_succeeds_where_no_drawn_identifier_is_filed() {
    // Requests filed under identifiers of another shape cannot collide with
    // an identifier that the manager draws.
    let mut manager = InMemoryConnectionManager::new();
    for id in ["r1", "r2", ""] {
        manager
            .create_connection_with_id(text(id), text("A"), text("Friend Request"))
            .unwrap();
    }
    let request = manager.create_connection(text("alice"), text("")).unwrap();
    assert_eq!(request.status, ConnectionStatus::Pending);
    assert_eq!(request.requester_id, "alice");
    assert_eq!(request.label, "");
    assert!(!["r1", "r2", ""].contains(&request.id.as_str()));
}
