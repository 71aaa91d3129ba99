use quartermaster::store::memory::InMemoryTaskStore;
use quartermaster::store::state::TaskStatus;
use quartermaster::store::{TaskStore, TaskStoreError};
use quartermaster::task::Task;

struct TestTask {
    pub id: String,
}

impl Task for TestTask {
    fn name(&self) -> String {
        "test_task".to_string()
    }

    fn id(&self) -> String {
        self.id.clone()
    }

    fn run(&self) {
        // Nothing
    }
}

#[test]
fn create_state() {
    let mut mem_store = InMemoryTaskStore::new("test_manager");
    let state1 = mem_store
        .save_state(&TestTask {
            id: "1".to_string(),
        })
        .unwrap();
    assert_eq!(state1.task_id, "1");
    let state2 = mem_store
        .save_state(&TestTask {
            id: "2".to_string(),
        })
        .unwrap();
    assert_eq!(state2.task_id, "2");
    assert_eq!(mem_store.count_tasks().unwrap(), 2 as usize);
}

#[test]
fn get_state_found() {
    let mut mem_store = InMemoryTaskStore::new("test_manager");
    let task = TestTask {
        id: "1".to_string(),
    };
    mem_store.save_state(&task).unwrap();
    assert!(mem_store.get_state(&task).unwrap().is_some());
}

#[test]
fn get_state_not_found() {
    let mut mem_store = InMemoryTaskStore::new("test_manager");
    let task = TestTask {
        id: "1".to_string(),
    };
    mem_store.save_state(&task).unwrap();
    assert!(mem_store
        .get_state(&TestTask {
            id: "2".to_string(),
        })
        .unwrap()
        .is_none());
}

#[test]
fn delete_state() {
    let mut mem_store = InMemoryTaskStore::new("test_manager");
    let task = TestTask {
        id: "1".to_string(),
    };
    mem_store.save_state(&task).unwrap();
    assert_eq!(mem_store.count_tasks().unwrap(), 1 as usize);
    mem_store.delete_state(&task).unwrap();
    assert_eq!(mem_store.count_tasks().unwrap(), 0 as usize);
}

#[test]
fn update_state() {
    let mut mem_store = InMemoryTaskStore::new("test_manager");
    let task = TestTask {
        id: "1".to_string(),
    };
    mem_store.save_state(&task).unwrap();
    mem_store
        .update_status(&task, TaskStatus::Running)
        .unwrap();
    let state = mem_store.get_state(&task).unwrap().unwrap();
    assert_eq!(state.status, TaskStatus::Running);
}

#[test]
fn clear() {
    let mut mem_store = InMemoryTaskStore::new("test_manager");
    mem_store
        .save_state(&TestTask {
            id: "1".to_string(),
        })
        .unwrap();
    mem_store
        .save_state(&TestTask {
            id: "2".to_string(),
        })
        .unwrap();
    mem_store.clear().unwrap();
    assert_eq!(mem_store.count_tasks().unwrap(), 0 as usize);
}

#[test]
fn get_all_states() {
    let mut mem_store = InMemoryTaskStore::new("test_manager");
    mem_store
        .save_state(&TestTask {
            id: "1".to_string(),
        })
        .unwrap();
    mem_store
        .save_state(&TestTask {
            id: "2".to_string(),
        })
        .unwrap();
    let states = mem_store.get_all_states().unwrap();
    assert_eq!(states.len(), 2 as usize);
    assert!(states.iter().find(|s| s.task_id == "1").is_some());
    assert!(states.iter().find(|s| s.task_id == "2").is_some());
}

#[test]
fn update_status_missing_record_is_not_found() {
    let mut mem_store = InMemoryTaskStore::new("test_manager");
    let r = mem_store.update_status(
        &TestTask {
            id: "1".to_string(),
        },
        TaskStatus::Running,
    );
    assert!(matches!(r, Err(TaskStoreError::NotFound(_))));
    if let Err(TaskStoreError::NotFound(msg)) = r {
        assert_eq!(msg, "task test_task with id 1 was not found");
    }
}

#[test]
fn delete_state_missing_record_is_not_found() {
    let mut mem_store = InMemoryTaskStore::new("test_manager");
    let r = mem_store.delete_state(&TestTask {
        id: "1".to_string(),
    });
    assert!(matches!(r, Err(TaskStoreError::NotFound(_))));
}

#[test]
fn save_state_same_identity_keeps_one_record() {
    let mut mem_store = InMemoryTaskStore::new("test_manager");
    let task = TestTask {
        id: "1".to_string(),
    };
    mem_store.save_state(&task).unwrap();
    mem_store.save_state(&task).unwrap();
    assert_eq!(mem_store.count_tasks().unwrap(), 1 as usize);
}

#[test]
fn saved_record_fields() {
    let mut mem_store = InMemoryTaskStore::new("test_manager");
    let state = mem_store
        .save_state(&TestTask {
            id: "7".to_string(),
        })
        .unwrap();
    assert_eq!(state.task_name, "test_task");
    assert_eq!(state.task_id, "7");
    assert_eq!(state.task_manager, "test_manager");
    assert_eq!(state.status, TaskStatus::Pending);
    assert!(state.id.is_none());
    assert!(state.instance.is_none());
    assert_eq!(mem_store.manager_name(), "test_manager");
}
