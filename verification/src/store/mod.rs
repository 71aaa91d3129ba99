use vstd::prelude::*;

pub mod memory;
pub mod mongodb;
pub mod state;

use crate::task::Task;
use state::{
    delete_identity, has_identity, identity_index, update_identity_status, upsert_state, TaskState,
    TaskStatus,
};

verus! {

use vstd::string::StringExecFns;

/// The message carried by a `NotFound` failure for the task identity
/// (`name`, `id`).
pub fn not_found_message(name: &str, id: &str) -> (r: String)
    ensures
        r@ == "task "@ + name@ + " with id "@ + id@ + " was not found"@,
{
    let mut m = String::from_str("task ");
    m.append(name);
    m.append(" with id ");
    m.append(id);
    m.append(" was not found");
    m
}

/// Failure of a task store operation.
///
/// `Data` reports a serialization or query failure, `Io` a transport or
/// availability failure, and `NotFound` a mutation attempted on a record
/// that does not exist.  Each carries a human-readable message.
#[derive(Debug)]
pub enum TaskStoreError {
    Data(String),
    Io(String),
    NotFound(String),
}

/// The pluggable persistence capability: keeps track of one manager's task
/// state records.
///
/// The ghost function `states` is the store's contents, in storage order;
/// `inv` is its internal well-formedness, which always entails that no two
/// records track the same task identity (`inv_implies_distinct`); and
/// `fallible` says whether operations may fail with `Data` or `Io` at all.
/// The contracts pin every operation down over `states`: any failure leaves
/// the contents untouched, a mutation reports `NotFound` exactly when its
/// record is missing, and for an infallible store success is owed everywhere
/// else.
pub trait TaskStore: Sized {
    /// Internal well-formedness of the store.
    spec fn inv(&self) -> bool;

    /// Whether operations may fail with `Data` or `Io` at all: false for a
    /// transient in-process store, true for one behind a transport.
    spec fn fallible() -> bool;

    /// The records currently held, in storage order.
    spec fn states(&self) -> Seq<TaskState>;

    /// The scope label this store instance serves, as a ghost value.
    spec fn manager_spec(&self) -> Seq<char>;

    /// A well-formed store never holds two records for one identity.
    proof fn inv_implies_distinct(&self)
        requires
            self.inv(),
        ensures
            state::distinct_identities(self.states()),
    ;

    /// Get manager name.
    fn manager_name(&self) -> (r: String)
        requires
            self.inv(),
        ensures
            r@ == self.manager_spec(),
    ;

    /// Idempotent setup of the store; holds no records hostage: the contents
    /// are untouched whether or not setup succeeds.
    fn init(&mut self) -> (r: Result<(), TaskStoreError>)
        requires
            old(self).inv(),
        ensures
            final(self).inv(),
            final(self).manager_spec() == old(self).manager_spec(),
            final(self).states() == old(self).states(),
            r matches Err(e) ==> Self::fallible() && !(e is NotFound),
    ;

    /// Create a `Pending` record for the task's identity, replacing a record
    /// already tracking that identity if one exists.  Returns the record as
    /// stored.  A fallible store may fail with `Data` or `Io` instead,
    /// storing nothing.
    fn save_state<T: Task>(&mut self, task: &T) -> (r: Result<TaskState, TaskStoreError>)
        requires
            old(self).inv(),
        ensures
            final(self).inv(),
            final(self).manager_spec() == old(self).manager_spec(),
            match r {
                Ok(st) => {
                    &&& st.task_name@ == task.name_spec()
                    &&& st.task_id@ == task.id_spec()
                    &&& st.task_manager@ == old(self).manager_spec()
                    &&& st.status is Pending
                    &&& final(self).states() == upsert_state(old(self).states(), st)
                },
                Err(e) => {
                    &&& Self::fallible()
                    &&& !(e is NotFound)
                    &&& final(self).states() == old(self).states()
                },
            },
    ;

    /// Delete the record for the task's identity.  `NotFound` is reported
    /// exactly when no such record exists; a fallible store may also fail
    /// with `Data` or `Io`.  Any failure changes nothing.
    fn delete_state<T: Task>(&mut self, task: &T) -> (r: Result<(), TaskStoreError>)
        requires
            old(self).inv(),
        ensures
            final(self).inv(),
            final(self).manager_spec() == old(self).manager_spec(),
            match r {
                Ok(()) => {
                    &&& has_identity(old(self).states(), task.name_spec(), task.id_spec())
                    &&& final(self).states() == delete_identity(
                        old(self).states(),
                        task.name_spec(),
                        task.id_spec(),
                    )
                },
                Err(e) => {
                    &&& final(self).states() == old(self).states()
                    &&& (e is NotFound <==> !has_identity(
                        old(self).states(),
                        task.name_spec(),
                        task.id_spec(),
                    ))
                    &&& !(e is NotFound) ==> Self::fallible()
                },
            },
    ;

    /// Retrieve the record for the task's identity, or `None` when no such
    /// record exists.  A fallible store may fail with `Data` or `Io` instead.
    fn get_state<T: Task>(&self, task: &T) -> (r: Result<Option<TaskState>, TaskStoreError>)
        requires
            self.inv(),
        ensures
            match r {
                Ok(Some(st)) => {
                    &&& has_identity(self.states(), task.name_spec(), task.id_spec())
                    &&& st == self.states()[identity_index(
                        self.states(),
                        task.name_spec(),
                        task.id_spec(),
                    )]
                },
                Ok(None) => !has_identity(self.states(), task.name_spec(), task.id_spec()),
                Err(e) => Self::fallible() && !(e is NotFound),
            },
    ;

    /// Count the records in the store's scope; a fallible store may fail
    /// with `Data` or `Io` instead.
    fn count_tasks(&self) -> (r: Result<usize, TaskStoreError>)
        requires
            self.inv(),
        ensures
            match r {
                Ok(n) => n == self.states().len(),
                Err(e) => Self::fallible() && !(e is NotFound),
            },
    ;

    /// Replace the status of the record for the task's identity.  `NotFound`
    /// is reported exactly when no such record exists; a fallible store may
    /// also fail with `Data` or `Io`.  Any failure changes nothing.
    fn update_status<T: Task>(&mut self, task: &T, status: TaskStatus) -> (r: Result<
        (),
        TaskStoreError,
    >)
        requires
            old(self).inv(),
        ensures
            final(self).inv(),
            final(self).manager_spec() == old(self).manager_spec(),
            match r {
                Ok(()) => {
                    &&& has_identity(old(self).states(), task.name_spec(), task.id_spec())
                    &&& final(self).states() == update_identity_status(
                        old(self).states(),
                        task.name_spec(),
                        task.id_spec(),
                        status,
                    )
                },
                Err(e) => {
                    &&& final(self).states() == old(self).states()
                    &&& (e is NotFound <==> !has_identity(
                        old(self).states(),
                        task.name_spec(),
                        task.id_spec(),
                    ))
                    &&& !(e is NotFound) ==> Self::fallible()
                },
            },
    ;

    /// Remove every record in the store's scope; a fallible store may fail
    /// with `Data` or `Io` instead, removing nothing.
    fn clear(&mut self) -> (r: Result<(), TaskStoreError>)
        requires
            old(self).inv(),
        ensures
            final(self).inv(),
            final(self).manager_spec() == old(self).manager_spec(),
            match r {
                Ok(()) => final(self).states() == Seq::<TaskState>::empty(),
                Err(e) => Self::fallible() && !(e is NotFound) && final(self).states() == old(
                    self,
                ).states(),
            },
    ;

    /// Return all the records currently held, in storage order; a fallible
    /// store may fail with `Data` or `Io` instead.
    fn get_all_states(&self) -> (r: Result<Vec<TaskState>, TaskStoreError>)
        requires
            self.inv(),
        ensures
            match r {
                Ok(v) => v@ == self.states(),
                Err(e) => Self::fallible() && !(e is NotFound),
            },
    ;
}

} // verus!
