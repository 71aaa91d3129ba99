use vstd::prelude::*;

use crate::store::state::{TaskState, TaskStatus};
use crate::store::{not_found_message, TaskStoreError};
use crate::task::Task;
use crate::util::now_secs;

verus! {

/// The index a durable store must ensure at setup: unique over the listed
/// keys, so the backend itself rejects a second record for one task identity.
pub struct UniqueIndex {
    pub keys: Vec<String>,
    pub unique: bool,
}

/// A point lookup for the record of one task identity, scoped to the owning
/// manager across instances.
pub struct StateFilter {
    pub task_manager: String,
    pub task_name: String,
    pub task_id: String,
}

/// A query scoped to one instance label.
pub struct ScopeFilter {
    pub instance: String,
}

/// A mutation addressed to one stored record by its store-assigned id.
pub struct RecordRef {
    pub id: Option<String>,
}

/// A status replacement addressed to one stored record.
pub struct StatusUpdate {
    pub target: RecordRef,
    pub status: TaskStatus,
}

/// A backend failure surfaced as the store's `Data` error, carrying the
/// backend's own message.
pub fn backend_error(message: String) -> (r: TaskStoreError)
    ensures
        r matches TaskStoreError::Data(m) && m@ == message@,
{
    TaskStoreError::Data(message)
}

/// Task store backed by a networked document collection shared by several
/// processes.  No backend client is part of this crate: the backend is an
/// external collaborator, and this type fixes, as verified values, what any
/// driver must send it and how its responses decide each operation's result:
/// a unique identity index at setup, point lookups scoped to the manager
/// (across instances), count/clear/list queries scoped to this instance's
/// label, and `NotFound` exactly when a mutation's lookup came back empty.
pub struct MongoDBTaskStore {
    manager: String,
    instance: String,
}

impl MongoDBTaskStore {
    /// The scope label this store serves, as a ghost value.
    pub closed spec fn manager_spec(&self) -> Seq<char> {
        self.manager@
    }

    /// The label of this process's instance, as a ghost value.
    pub closed spec fn instance_spec(&self) -> Seq<char> {
        self.instance@
    }

    /// Create a store bound to a manager scope and an instance label; the
    /// instance label should be unique to this process.
    pub fn new(manager_name: &str, instance_name: &str) -> (r: Self)
        ensures
            r.manager_spec() == manager_name@,
            r.instance_spec() == instance_name@,
    {
        MongoDBTaskStore { manager: manager_name.to_owned(), instance: instance_name.to_owned() }
    }

    /// Name of the backend collection that holds the task state records.
    pub fn collection(&self) -> (r: String)
        ensures
            r@ == "TaskState"@,
    {
        "TaskState".to_owned()
    }

    /// Get manager name.
    pub fn manager_name(&self) -> (r: String)
        ensures
            r@ == self.manager_spec(),
    {
        self.manager.clone()
    }

    /// The index that setup must ensure: unique on (task_id, task_name),
    /// scoped per manager by the task_manager key, so that managers sharing
    /// one collection do not collide.  This gives true cross-process dedup
    /// that the submission pre-check alone cannot.
    pub fn init_index(&self) -> (r: UniqueIndex)
        ensures
            r.keys@.len() == 3,
            r.keys@[0]@ == "task_manager"@,
            r.keys@[1]@ == "task_id"@,
            r.keys@[2]@ == "task_name"@,
            r.unique,
    {
        let mut keys: Vec<String> = Vec::new();
        keys.push("task_manager".to_owned());
        keys.push("task_id".to_owned());
        keys.push("task_name".to_owned());
        UniqueIndex { keys, unique: true }
    }

    /// The `Pending` record that saving a task's state writes: the task's
    /// identity, this store's manager and instance labels, and the present
    /// time.  The backend assigns the record id on insertion.
    pub fn pending_state<T: Task>(&self, task: &T) -> (r: TaskState)
        ensures
            r.id is None,
            r.task_name@ == task.name_spec(),
            r.task_id@ == task.id_spec(),
            r.task_manager@ == self.manager_spec(),
            r.instance matches Some(i) && i@ == self.instance_spec(),
            r.status is Pending,
    {
        TaskState {
            id: None,
            task_id: task.id(),
            task_name: task.name(),
            task_manager: self.manager.clone(),
            instance: Some(self.instance.clone()),
            status: TaskStatus::Pending,
            creation_time: now_secs(),
        }
    }

    /// The point-lookup filter for a task's record: scoped to the manager
    /// only, across instances, so that processes sharing a manager identity
    /// deduplicate against each other.
    pub fn state_filter<T: Task>(&self, task: &T) -> (r: StateFilter)
        ensures
            r.task_manager@ == self.manager_spec(),
            r.task_name@ == task.name_spec(),
            r.task_id@ == task.id_spec(),
    {
        StateFilter {
            task_manager: self.manager.clone(),
            task_name: task.name(),
            task_id: task.id(),
        }
    }

    /// The filter that scopes counting, clearing and listing records to this
    /// instance's label alone.
    pub fn scope_filter(&self) -> (r: ScopeFilter)
        ensures
            r.instance@ == self.instance_spec(),
    {
        ScopeFilter { instance: self.instance.clone() }
    }

    /// What a status update does with the outcome of its record lookup: a
    /// record found is addressed by its store-assigned id and given the new
    /// status; an empty lookup fails with `NotFound` naming the task.
    pub fn status_update<T: Task>(task: &T, found: Option<TaskState>, status: TaskStatus) -> (r:
        Result<StatusUpdate, TaskStoreError>)
        ensures
            match r {
                Ok(u) => found matches Some(st) && u.target.id == st.id && u.status == status,
                Err(e) => e is NotFound && found is None,
            },
    {
        match found {
            Some(st) => Ok(StatusUpdate { target: RecordRef { id: st.id }, status }),
            None => Err(
                TaskStoreError::NotFound(
                    not_found_message(task.name().as_str(), task.id().as_str()),
                ),
            ),
        }
    }

    /// What a deletion does with the outcome of its record lookup: a record
    /// found is deleted by its store-assigned id; an empty lookup fails with
    /// `NotFound` naming the task.
    pub fn deletion<T: Task>(task: &T, found: Option<TaskState>) -> (r: Result<
        RecordRef,
        TaskStoreError,
    >)
        ensures
            match r {
                Ok(d) => found matches Some(st) && d.id == st.id,
                Err(e) => e is NotFound && found is None,
            },
    {
        match found {
            Some(st) => Ok(RecordRef { id: st.id }),
            None => Err(
                TaskStoreError::NotFound(
                    not_found_message(task.name().as_str(), task.id().as_str()),
                ),
            ),
        }
    }
}

} // verus!
