use std::sync::Arc;

use friends_connect::connection::ConnectionManager;
use friends_connect::error::ConnectionError;
use friends_connect::memory::InMemoryConnectionManager;
use tokio::sync::Mutex;

fn pool() -> tokio::runtime::Runtime {
    tokio::runtime::Builder::new_multi_thread()
        .worker_threads(4)
        .build()
        .unwrap()
}

#[test]
fn parallel_accepts_of_one_request_succeed_exactly_once() {
    pool().block_on(async {
        for _ in 0..50 {
            let manager = Arc::new(Mutex::new(InMemoryConnectionManager::new()));
            let request = manager
                .lock()
                .await
                .create_connection("A".to_string(), "Friend Request".to_string())
                .unwrap();
            let mut callers = Vec::new();
            for n in 0..16 {
                let manager = Arc::clone(&manager);
                let request_id = request.id.clone();
                callers.push(tokio::spawn(async move {
                    manager.lock().await.accept_connection(
                        &request_id,
                        format!("user-{}", n),
                        "Friend".to_string(),
                    )
                }));
            }
            let mut made = Vec::new();
            let mut refused = 0;
            for caller in callers {
                match caller.await.unwrap() {
                    Ok(connection) => made.push(connection),
                    Err(e) => {
                        assert_eq!(e, ConnectionError::AlreadyAccepted);
                        refused += 1;
                    }
                }
            }
            assert_eq!(made.len(), 1);
            assert_eq!(refused, 15);
            let manager = manager.lock().await;
            assert_eq!(manager.list_connections("A"), made);
            assert_eq!(manager.list_connections(&made[0].acceptor_id), made);
        }
    });
}

#[test]
fn parallel_creates_get_different_identifiers() {
    pool().block_on(async {
        let manager = Arc::new(Mutex::new(InMemoryConnectionManager::new()));
        let mut callers = Vec::new();
        for n in 0..64 {
            let manager = Arc::clone(&manager);
            callers.push(tokio::spawn(async move {
                manager
                    .lock()
                    .await
                    .create_connection(format!("user-{}", n), "Friend Request".to_string())
            }));
        }
        let mut ids: Vec<String> = Vec::new();
        for caller in callers {
            let request = caller.await.unwrap().unwrap();
            assert!(!ids.contains(&request.id));
            ids.push(request.id);
        }
        assert_eq!(ids.len(), 64);
    });
}
