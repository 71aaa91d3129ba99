use quartermaster::store::not_found_message;
use quartermaster::store::state::TaskStatus;
use quartermaster::task::{same_task, Task};

struct NamedTask {
    name: String,
    id: String,
}

impl Task for NamedTask {
    fn name(&self) -> String {
        self.name.clone()
    }

    fn id(&self) -> String {
        self.id.clone()
    }

    fn run(&self) {}
}

fn named(name: &str, id: &str) -> NamedTask {
    NamedTask {
        name: name.to_string(),
        id: id.to_string(),
    }
}

#[test]
fn tasks_are_equal_exactly_by_name_and_id() {
    assert!(same_task(&named("a", "1"), &named("a", "1")));
    assert!(!same_task(&named("a", "1"), &named("a", "2")));
    assert!(!same_task(&named("b", "1"), &named("a", "1")));
    assert!(!same_task(&named("", ""), &named("a", "1")));
    assert!(same_task(&named("", ""), &named("", "")));
}

#[test]
fn status_labels() {
    assert_eq!(TaskStatus::Pending.label(), "Pending");
    assert_eq!(TaskStatus::Running.label(), "Running");
}

#[test]
fn not_found_messages_name_the_identity() {
    assert_eq!(
        not_found_message("report", "33"),
        "task report with id 33 was not found"
    );
}
