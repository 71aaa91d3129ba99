use quartermaster::store::mongodb::MongoDBTaskStore;
use quartermaster::store::state::{TaskState, TaskStatus};
use quartermaster::store::TaskStoreError;
use quartermaster::task::Task;

struct TestTask {
    id: String,
}

impl Task for TestTask {
    fn name(&self) -> String {
        "test_task".to_string()
    }

    fn id(&self) -> String {
        self.id.clone()
    }

    fn run(&self) {}
}

#[test]
fn durable_store_labels() {
    let store = MongoDBTaskStore::new("manager", "instance");
    assert_eq!(store.manager_name(), "manager");
    assert_eq!(store.collection(), "TaskState");
}

#[test]
fn init_asks_for_a_unique_identity_index() {
    let store = MongoDBTaskStore::new("manager", "instance");
    let index = store.init_index();
    assert!(index.unique);
    assert_eq!(
        index.keys,
        vec![
            "task_manager".to_string(),
            "task_id".to_string(),
            "task_name".to_string()
        ]
    );
}

#[test]
fn saved_document_shape() {
    let store = MongoDBTaskStore::new("manager", "instance");
    let doc = store.pending_state(&TestTask {
        id: "42".to_string(),
    });
    assert!(doc.id.is_none());
    assert_eq!(doc.task_name, "test_task");
    assert_eq!(doc.task_id, "42");
    assert_eq!(doc.task_manager, "manager");
    assert_eq!(doc.instance, Some("instance".to_string()));
    assert_eq!(doc.status, TaskStatus::Pending);
    assert_eq!(doc.status.label(), "Pending");
}

#[test]
fn lookups_are_manager_scoped_and_listings_instance_scoped() {
    let store = MongoDBTaskStore::new("manager", "instance");
    let filter = store.state_filter(&TestTask {
        id: "42".to_string(),
    });
    assert_eq!(filter.task_manager, "manager");
    assert_eq!(filter.task_name, "test_task");
    assert_eq!(filter.task_id, "42");

    let scope = store.scope_filter();
    assert_eq!(scope.instance, "instance");
}

#[test]
fn status_update_addresses_the_found_record() {
    let task = TestTask {
        id: "42".to_string(),
    };
    let found = Some(TaskState {
        id: Some("abc".to_string()),
        task_id: "42".to_string(),
        task_name: "test_task".to_string(),
        task_manager: "manager".to_string(),
        instance: Some("instance".to_string()),
        status: TaskStatus::Pending,
        creation_time: 7,
    });
    let update = MongoDBTaskStore::status_update(&task, found, TaskStatus::Running).unwrap();
    assert_eq!(update.target.id, Some("abc".to_string()));
    assert_eq!(update.status, TaskStatus::Running);
    assert_eq!(update.status.label(), "Running");

    let missing = MongoDBTaskStore::status_update(&task, None, TaskStatus::Running);
    assert!(matches!(missing, Err(TaskStoreError::NotFound(_))));
    if let Err(TaskStoreError::NotFound(msg)) = missing {
        assert_eq!(msg, "task test_task with id 42 was not found");
    }
}

#[test]
fn deletion_addresses_the_found_record() {
    let task = TestTask {
        id: "42".to_string(),
    };
    let found = Some(TaskState {
        id: Some("abc".to_string()),
        task_id: "42".to_string(),
        task_name: "test_task".to_string(),
        task_manager: "manager".to_string(),
        instance: None,
        status: TaskStatus::Running,
        creation_time: 7,
    });
    let target = MongoDBTaskStore::deletion(&task, found).unwrap();
    assert_eq!(target.id, Some("abc".to_string()));

    let missing = MongoDBTaskStore::deletion(&task, None);
    assert!(matches!(missing, Err(TaskStoreError::NotFound(_))));
}

#[test]
fn backend_failures_become_data_errors() {
    let err = quartermaster::store::mongodb::backend_error("no route to host".to_string());
    assert!(matches!(err, TaskStoreError::Data(m) if m == "no route to host"));
}
