//! Concurrent workers around the verified store: two tokio workers share one
//! unbounded queue and one `InMemoryTaskStore`, as an asynchronous shell
//! around the library would.

use std::sync::Arc;
use std::time::Duration;

use quartermaster::store::memory::InMemoryTaskStore;
use quartermaster::store::state::TaskStatus;
use quartermaster::store::TaskStore;
use quartermaster::task::Task;

struct NamedTask {
    id: String,
}

impl Task for NamedTask {
    fn name(&self) -> String {
        "test_task".to_string()
    }

    fn id(&self) -> String {
        self.id.clone()
    }

    fn run(&self) {}
}

enum Item {
    Job(String, u64),
    Stop,
}

#[test]
fn run_parallel() {
    let rt = tokio::runtime::Builder::new_multi_thread()
        .worker_threads(2)
        .enable_time()
        .build()
        .unwrap();
    rt.block_on(async {
        let queue: Arc<deadqueue::unlimited::Queue<Item>> =
            Arc::new(deadqueue::unlimited::Queue::new());
        let store = Arc::new(tokio::sync::RwLock::new(InMemoryTaskStore::new("manager")));
        let results: Arc<tokio::sync::RwLock<Vec<String>>> =
            Arc::new(tokio::sync::RwLock::new(Vec::new()));
        let started = Arc::new(tokio::sync::RwLock::new(true));

        // Submit three tasks the way the manager does: deduplicate against
        // the store, persist a Pending record, enqueue.
        for (id, millis) in [("1", 10u64), ("2", 50), ("3", 5)] {
            let t = NamedTask { id: id.to_string() };
            let mut s = store.write().await;
            if s.get_state(&t).unwrap().is_none() {
                s.save_state(&t).unwrap();
                queue.push(Item::Job(id.to_string(), millis));
            }
        }

        // A single sentinel for two workers: shutdown is not guaranteed to be
        // clean in general, but here the second worker is busy when the flag
        // flips and observes it on its next loop iteration.
        queue.push(Item::Stop);

        let mut handles = Vec::new();
        for _ in 0..2 {
            let queue = queue.clone();
            let store = store.clone();
            let results = results.clone();
            let started = started.clone();
            handles.push(tokio::spawn(async move {
                while *started.read().await {
                    match queue.pop().await {
                        Item::Stop => {
                            *started.write().await = false;
                        }
                        Item::Job(id, millis) => {
                            let t = NamedTask { id: id.clone() };
                            let _ = store.write().await.update_status(&t, TaskStatus::Running);
                            tokio::time::sleep(Duration::from_millis(millis)).await;
                            results.write().await.push(id.clone());
                            let _ = store.write().await.delete_state(&t);
                        }
                    }
                }
            }));
        }
        for h in handles {
            h.await.unwrap();
        }

        let r = results.read().await;
        assert_eq!(r.len(), 3);
        assert_eq!(r[0], "1");
        assert_eq!(r[1], "3");
        assert_eq!(r[2], "2");
        assert_eq!(store.read().await.count_tasks().unwrap(), 0);
    });
}
