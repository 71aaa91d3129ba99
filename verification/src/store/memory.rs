use vstd::prelude::*;

use crate::store::state::{
    delete_identity, distinct_identities, has_identity, lemma_identity_index_is,
    lemma_push_fresh_distinct, lemma_remove_distinct, lemma_update_same_identity_distinct,
    state_matches, update_identity_status, upsert_state, TaskState, TaskStatus,
};
use crate::store::{not_found_message, TaskStore, TaskStoreError};
use crate::task::Task;
use crate::util::now_secs;

verus! {

/// Process-local task store: a keyed collection of records guarded by the
/// store's own methods.  Records are keyed by task identity, and a status
/// change mutates the record in place, so no two records ever track the same
/// identity.
pub struct InMemoryTaskStore {
    manager: String,
    states: Vec<TaskState>,
}

impl InMemoryTaskStore {
    /// Create a new task store serving the given manager scope, holding no
    /// records.
    pub fn new(manager_name: &str) -> (r: Self)
        ensures
            r.inv(),
            r.manager_spec() == manager_name@,
            r.states() == Seq::<TaskState>::empty(),
    {
        InMemoryTaskStore { manager: manager_name.to_owned(), states: Vec::new() }
    }

    /// Position of the record tracking the given identity, if any.
    fn find_index(&self, name: &String, id: &String) -> (r: Option<usize>)
        ensures
            match r {
                Some(i) => i < self.states@.len() && state_matches(
                    self.states@[i as int],
                    name@,
                    id@,
                ),
                None => !has_identity(self.states@, name@, id@),
            },
    {
        let mut i: usize = 0;
        while i < self.states.len()
            invariant
                i <= self.states@.len(),
                forall|j: int|
                    0 <= j < i ==> !#[trigger] state_matches(self.states@[j], name@, id@),
            decreases self.states@.len() - i,
        {
            if self.states[i].task_name == *name && self.states[i].task_id == *id {
                return Some(i);
            }
            i = i + 1;
        }
        None
    }
}

impl TaskStore for InMemoryTaskStore {
    closed spec fn inv(&self) -> bool {
        distinct_identities(self.states@)
    }

    open spec fn fallible() -> bool {
        false
    }

    closed spec fn states(&self) -> Seq<TaskState> {
        self.states@
    }

    closed spec fn manager_spec(&self) -> Seq<char> {
        self.manager@
    }

    proof fn inv_implies_distinct(&self) {
    }

    fn manager_name(&self) -> (r: String) {
        self.manager.clone()
    }

    fn init(&mut self) -> (r: Result<(), TaskStoreError>) {
        // Nothing to initialize.
        Ok(())
    }

    fn save_state<T: Task>(&mut self, task: &T) -> (r: Result<TaskState, TaskStoreError>)
        ensures
            match r {
                Ok(st) => st.id is None && st.instance is None,
                Err(_) => true,
            },
    {
        let name = task.name();
        let id = task.id();
        let st = TaskState {
            id: None,
            task_id: id.clone(),
            task_name: name.clone(),
            task_manager: self.manager.clone(),
            instance: None,
            status: TaskStatus::Pending,
            creation_time: now_secs(),
        };
        let stored = st.clone();
        match self.find_index(&name, &id) {
            Some(i) => {
                proof {
                    lemma_identity_index_is(self.states@, name@, id@, i as int);
                    lemma_update_same_identity_distinct(self.states@, i as int, st);
                }
                self.states[i] = st;
                proof {
                    assert(self.states@ =~= upsert_state(old(self).states@, stored));
                }
            },
            None => {
                proof {
                    lemma_push_fresh_distinct(self.states@, st);
                }
                self.states.push(st);
                proof {
                    assert(self.states@ =~= upsert_state(old(self).states@, stored));
                }
            },
        }
        Ok(stored)
    }

    fn delete_state<T: Task>(&mut self, task: &T) -> (r: Result<(), TaskStoreError>) {
        let name = task.name();
        let id = task.id();
        match self.find_index(&name, &id) {
            Some(i) => {
                proof {
                    lemma_identity_index_is(self.states@, name@, id@, i as int);
                    lemma_remove_distinct(self.states@, i as int);
                }
                self.states.remove(i);
                Ok(())
            },
            None => Err(TaskStoreError::NotFound(not_found_message(name.as_str(), id.as_str()))),
        }
    }

    fn get_state<T: Task>(&self, task: &T) -> (r: Result<Option<TaskState>, TaskStoreError>) {
        let name = task.name();
        let id = task.id();
        match self.find_index(&name, &id) {
            Some(i) => {
                proof {
                    lemma_identity_index_is(self.states@, name@, id@, i as int);
                }
                Ok(Some(self.states[i].clone()))
            },
            None => Ok(None),
        }
    }

    fn count_tasks(&self) -> (r: Result<usize, TaskStoreError>) {
        Ok(self.states.len())
    }

    fn update_status<T: Task>(&mut self, task: &T, status: TaskStatus) -> (r: Result<
        (),
        TaskStoreError,
    >) {
        let name = task.name();
        let id = task.id();
        match self.find_index(&name, &id) {
            Some(i) => {
                proof {
                    lemma_identity_index_is(self.states@, name@, id@, i as int);
                }
                let mut st = self.states[i].clone();
                st.status = status;
                proof {
                    lemma_update_same_identity_distinct(self.states@, i as int, st);
                }
                self.states[i] = st;
                proof {
                    assert(self.states@ =~= update_identity_status(
                        old(self).states@,
                        name@,
                        id@,
                        status,
                    ));
                }
                Ok(())
            },
            None => Err(TaskStoreError::NotFound(not_found_message(name.as_str(), id.as_str()))),
        }
    }

    fn clear(&mut self) -> (r: Result<(), TaskStoreError>) {
        self.states.clear();
        Ok(())
    }

    fn get_all_states(&self) -> (r: Result<Vec<TaskState>, TaskStoreError>) {
        let all = self.states.clone();
        proof {
            assert(all@ =~= self.states@);
        }
        Ok(all)
    }
}

} // verus!
