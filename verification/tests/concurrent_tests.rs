use golink::service::{create_golink, CreateGolink};
use golink::storage::{GoStorage, HashMapStorage};
use std::sync::Arc;
use tokio::sync::RwLock;

fn runtime() -> tokio::runtime::Runtime {
    tokio::runtime::Builder::new_multi_thread().worker_threads(4).build().unwrap()
}

#[test]
fn concurrent_creates_with_distinct_keys_lose_nothing() {
    let tasks = 200;
    let storage = Arc::new(RwLock::new(HashMapStorage::new()));

    let created = runtime().block_on(async {
        let mut handles = Vec::new();
        for i in 0..tasks {
            let storage = Arc::clone(&storage);
            handles.push(tokio::spawn(async move {
                let request = CreateGolink {
                    short_link: format!("go/k{}", i),
                    url: "https://example.com".to_string(),
                };
                let mut store = storage.write().await;
                create_golink(request, &mut *store).status
            }));
        }
        let mut created = 0;
        for handle in handles {
            if handle.await.unwrap() == 201 {
                created += 1;
            }
        }
        created
    });
    assert_eq!(created, tasks);

    let store = storage.blocking_read();
    assert_eq!(store.get_all().unwrap().len(), tasks);
}

#[test]
fn concurrent_creates_of_one_key_succeed_once() {
    let tasks = 50;
    let storage = Arc::new(RwLock::new(HashMapStorage::new()));

    let statuses = runtime().block_on(async {
        let mut handles = Vec::new();
        for i in 0..tasks {
            let storage = Arc::clone(&storage);
            handles.push(tokio::spawn(async move {
                let request = CreateGolink {
                    short_link: "go/contended".to_string(),
                    url: format!("https://example.com/{}", i),
                };
                let mut store = storage.write().await;
                create_golink(request, &mut *store).status
            }));
        }
        let mut statuses = Vec::new();
        for handle in handles {
            statuses.push(handle.await.unwrap());
        }
        statuses
    });
    assert_eq!(statuses.iter().filter(|s| **s == 201).count(), 1);
    assert_eq!(statuses.iter().filter(|s| **s == 409).count(), tasks - 1);

    let store = storage.blocking_read();
    assert_eq!(store.get_all().unwrap().len(), 1);
}
