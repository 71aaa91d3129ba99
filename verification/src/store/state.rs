use vstd::prelude::*;

verus! {

/// Status of a stored task record.  A record is created `Pending`, moves to
/// `Running` when a worker picks the task up, and is deleted (not marked
/// terminal) once the task's work has completed.
#[derive(Clone, Copy, Debug, PartialEq, Eq, Hash, Structural)]
pub enum TaskStatus {
    Pending,
    Running,
}

/// The textual form of a status, as it appears in a stored document.
pub open spec fn status_label(s: TaskStatus) -> Seq<char> {
    match s {
        TaskStatus::Pending => "Pending"@,
        TaskStatus::Running => "Running"@,
    }
}

impl TaskStatus {
    /// The status as the string a stored document carries: "Pending" or "Running".
    pub fn label(&self) -> (r: String)
        ensures
            r@ == status_label(*self),
    {
        match self {
            TaskStatus::Pending => "Pending".to_owned(),
            TaskStatus::Running => "Running".to_owned(),
        }
    }
}

/// One stored task record.  The identity of the task it tracks is the
/// (task_name, task_id) pair; `task_manager` names the owning manager,
/// `instance` optionally names the process sharing that manager identity,
/// and `creation_time` is in whole seconds since the Unix epoch.
#[derive(Debug, Hash)]
pub struct TaskState {
    /// Store-assigned identifier of the record itself, if the store assigns one.
    pub id: Option<String>,
    pub task_id: String,
    pub task_name: String,
    pub task_manager: String,
    pub instance: Option<String>,
    pub status: TaskStatus,
    pub creation_time: u64,
}

impl Clone for TaskState {
    fn clone(&self) -> (r: Self)
        ensures
            r == *self,
    {
        TaskState {
            id: match &self.id {
                Some(s) => Some(s.clone()),
                None => None,
            },
            task_id: self.task_id.clone(),
            task_name: self.task_name.clone(),
            task_manager: self.task_manager.clone(),
            instance: match &self.instance {
                Some(s) => Some(s.clone()),
                None => None,
            },
            status: self.status,
            creation_time: self.creation_time,
        }
    }
}

/// Whether record `s` tracks the task identity (`name`, `id`).
pub open spec fn state_matches(s: TaskState, name: Seq<char>, id: Seq<char>) -> bool {
    s.task_name@ == name && s.task_id@ == id
}

/// Whether two records track the same task identity.
pub open spec fn same_identity(a: TaskState, b: TaskState) -> bool {
    a.task_name@ == b.task_name@ && a.task_id@ == b.task_id@
}

/// Whether some record in `states` tracks the identity (`name`, `id`).
pub open spec fn has_identity(states: Seq<TaskState>, name: Seq<char>, id: Seq<char>) -> bool {
    exists|i: int| 0 <= i < states.len() && #[trigger] state_matches(states[i], name, id)
}

/// The index of the record tracking (`name`, `id`); meaningful when
/// `has_identity` holds and identities are distinct.
pub open spec fn identity_index(states: Seq<TaskState>, name: Seq<char>, id: Seq<char>) -> int {
    choose|i: int| 0 <= i < states.len() && #[trigger] state_matches(states[i], name, id)
}

/// No two records track the same task identity.
pub open spec fn distinct_identities(states: Seq<TaskState>) -> bool {
    forall|i: int, j: int|
        0 <= i < states.len() && 0 <= j < states.len() && i != j
            ==> !#[trigger] same_identity(states[i], states[j])
}

/// Every record is still `Pending`.
pub open spec fn all_pending(states: Seq<TaskState>) -> bool {
    forall|i: int| 0 <= i < states.len() ==> (#[trigger] states[i].status) is Pending
}

/// `states` with the record for (`name`, `id`) removed, if one is present.
pub open spec fn delete_identity(states: Seq<TaskState>, name: Seq<char>, id: Seq<char>) -> Seq<
    TaskState,
> {
    if has_identity(states, name, id) {
        states.remove(identity_index(states, name, id))
    } else {
        states
    }
}

/// `states` with the status of the record for (`name`, `id`) replaced, if one
/// is present.
pub open spec fn update_identity_status(
    states: Seq<TaskState>,
    name: Seq<char>,
    id: Seq<char>,
    status: TaskStatus,
) -> Seq<TaskState> {
    if has_identity(states, name, id) {
        let i = identity_index(states, name, id);
        states.update(i, TaskState { status, ..states[i] })
    } else {
        states
    }
}

/// `states` with record `st` stored under its identity: replacing the record
/// already tracking that identity if there is one, appended otherwise.
pub open spec fn upsert_state(states: Seq<TaskState>, st: TaskState) -> Seq<TaskState> {
    if has_identity(states, st.task_name@, st.task_id@) {
        states.update(identity_index(states, st.task_name@, st.task_id@), st)
    } else {
        states.push(st)
    }
}

/// With distinct identities, the record tracking an identity sits at a unique
/// index, so any matching index is the chosen one.
pub proof fn lemma_identity_index_is(
    states: Seq<TaskState>,
    name: Seq<char>,
    id: Seq<char>,
    i: int,
)
    requires
        distinct_identities(states),
        0 <= i < states.len(),
        state_matches(states[i], name, id),
    ensures
        has_identity(states, name, id),
        identity_index(states, name, id) == i,
{
    assert(has_identity(states, name, id));
    let k = identity_index(states, name, id);
    if k != i {
        assert(same_identity(states[i], states[k]));
    }
}

/// Replacing a record with one of the same identity keeps identities distinct.
pub proof fn lemma_update_same_identity_distinct(states: Seq<TaskState>, i: int, st: TaskState)
    requires
        distinct_identities(states),
        0 <= i < states.len(),
        same_identity(states[i], st),
    ensures
        distinct_identities(states.update(i, st)),
{
    let updated = states.update(i, st);
    assert forall|p: int, q: int|
        0 <= p < updated.len() && 0 <= q < updated.len() && p != q implies !#[trigger] same_identity(
        updated[p],
        updated[q],
    ) by {
        assert(!same_identity(states[p], states[q]));
    }
}

/// Appending a record whose identity is absent keeps identities distinct.
pub proof fn lemma_push_fresh_distinct(states: Seq<TaskState>, st: TaskState)
    requires
        distinct_identities(states),
        !has_identity(states, st.task_name@, st.task_id@),
    ensures
        distinct_identities(states.push(st)),
{
    let pushed = states.push(st);
    assert forall|p: int, q: int|
        0 <= p < pushed.len() && 0 <= q < pushed.len() && p != q implies !#[trigger] same_identity(
        pushed[p],
        pushed[q],
    ) by {
        if p < states.len() && q < states.len() {
            assert(!same_identity(states[p], states[q]));
        } else if p < states.len() {
            assert(!state_matches(states[p], st.task_name@, st.task_id@));
        } else {
            assert(!state_matches(states[q], st.task_name@, st.task_id@));
        }
    }
}

/// Replacing a record's status and then deleting its identity deletes it
/// outright: the intermediate status is not observable afterwards.
pub proof fn lemma_update_then_delete(
    states: Seq<TaskState>,
    name: Seq<char>,
    id: Seq<char>,
    status: TaskStatus,
)
    requires
        distinct_identities(states),
    ensures
        delete_identity(update_identity_status(states, name, id, status), name, id)
            == delete_identity(states, name, id),
{
    if has_identity(states, name, id) {
        let i = identity_index(states, name, id);
        let updated = update_identity_status(states, name, id, status);
        assert(state_matches(updated[i], name, id));
        lemma_update_same_identity_distinct(states, i, TaskState { status, ..states[i] });
        lemma_identity_index_is(updated, name, id, i);
        assert(updated.remove(i) =~= states.remove(i));
    }
}

/// Removing a record keeps identities distinct.
pub proof fn lemma_remove_distinct(states: Seq<TaskState>, i: int)
    requires
        distinct_identities(states),
        0 <= i < states.len(),
    ensures
        distinct_identities(states.remove(i)),
{
    let removed = states.remove(i);
    assert forall|p: int, q: int|
        0 <= p < removed.len() && 0 <= q < removed.len() && p != q implies !#[trigger] same_identity(
        removed[p],
        removed[q],
    ) by {
        let p0: int = if p < i { p } else { p + 1 };
        let q0: int = if q < i { q } else { q + 1 };
        assert(removed[p] == states[p0]);
        assert(removed[q] == states[q0]);
        assert(!same_identity(states[p0], states[q0]));
    }
}

} // verus!
