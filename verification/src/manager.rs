use vstd::prelude::*;

use crate::store::state::{
    all_pending, delete_identity, distinct_identities, has_identity, identity_index,
    lemma_update_then_delete, same_identity, state_matches, update_identity_status, TaskState,
    TaskStatus,
};
use crate::store::TaskStore;
use crate::task::Task;

verus! {

/// One entry of the work queue: a submitted task, or the distinguished stop
/// sentinel that `stop` enqueues to shut the manager down.
pub enum QueueEntry<T> {
    Task(T),
    Stop,
}

/// Ghost image of a queue entry: a task reduced to its identity, or the stop
/// sentinel.
pub enum QueueEntryModel {
    Task { name: Seq<char>, id: Seq<char> },
    Stop,
}

/// Ghost image of a whole manager: the store's records, the queue reduced to
/// identities, the running flag, and the configuration.
#[verifier::ext_equal]
pub struct ManagerModel {
    pub states: Seq<TaskState>,
    pub queue: Seq<QueueEntryModel>,
    pub started: bool,
    pub worker_count: nat,
    pub name: Seq<char>,
}

/// Ghost image of one queue entry.
pub open spec fn entry_model<T: Task>(e: QueueEntry<T>) -> QueueEntryModel {
    match e {
        QueueEntry::Task(t) => QueueEntryModel::Task { name: t.name_spec(), id: t.id_spec() },
        QueueEntry::Stop => QueueEntryModel::Stop,
    }
}

/// Ghost image of the whole queue, front first.
pub open spec fn queue_model<T: Task>(q: Seq<QueueEntry<T>>) -> Seq<QueueEntryModel> {
    q.map_values(|e: QueueEntry<T>| entry_model(e))
}

/// Whether `rec` is the record a submission of the task (`name`, `id`) writes
/// under manager `manager`: a fresh `Pending` record for that identity.
pub open spec fn submitted_record(
    rec: TaskState,
    name: Seq<char>,
    id: Seq<char>,
    manager: Seq<char>,
) -> bool {
    rec.task_name@ == name && rec.task_id@ == id && rec.task_manager@ == manager
        && rec.status is Pending
}

/// Accepting a submission: the record joins the store and the task identity
/// joins the back of the queue.
pub open spec fn accept_model(m: ManagerModel, rec: TaskState) -> ManagerModel {
    ManagerModel {
        states: m.states.push(rec),
        queue: m.queue.push(QueueEntryModel::Task { name: rec.task_name@, id: rec.task_id@ }),
        ..m
    }
}

/// Submitting a task: a no-op while its identity is already tracked,
/// an acceptance otherwise.
pub open spec fn submit_model(m: ManagerModel, rec: TaskState) -> ManagerModel {
    if has_identity(m.states, rec.task_name@, rec.task_id@) {
        m
    } else {
        accept_model(m, rec)
    }
}

/// Requesting shutdown: exactly one stop sentinel joins the back of the queue.
pub open spec fn stop_model(m: ManagerModel) -> ManagerModel {
    ManagerModel { queue: m.queue.push(QueueEntryModel::Stop), ..m }
}

/// Clearing the manager's task states: every record in scope goes.
pub open spec fn clear_model(m: ManagerModel) -> ManagerModel {
    ManagerModel { states: Seq::<TaskState>::empty(), ..m }
}

/// Starting: a no-op while already started; otherwise stale records from any
/// earlier run are discarded (no resume-after-restart), and the flag goes up
/// only when there is at least one worker — with none, no loop ever runs and
/// queued tasks are never executed.
pub open spec fn start_model(m: ManagerModel) -> ManagerModel {
    if m.started {
        m
    } else {
        ManagerModel { states: Seq::<TaskState>::empty(), started: m.worker_count > 0, ..m }
    }
}

/// One worker iteration: nothing happens while stopped or idle; the sentinel
/// takes the flag down; a task is executed and its record deleted.
pub open spec fn step_model(m: ManagerModel) -> ManagerModel {
    if !m.started || m.queue.len() == 0 {
        m
    } else {
        match m.queue[0] {
            QueueEntryModel::Stop => ManagerModel {
                queue: m.queue.drop_first(),
                started: false,
                ..m
            },
            QueueEntryModel::Task { name, id } => ManagerModel {
                queue: m.queue.drop_first(),
                states: delete_identity(m.states, name, id),
                ..m
            },
        }
    }
}

/// Worker iterations repeated until the manager is stopped or the queue is
/// empty.
pub open spec fn drain_model(m: ManagerModel) -> ManagerModel
    decreases m.queue.len(),
{
    if !m.started || m.queue.len() == 0 {
        m
    } else {
        drain_model(step_model(m))
    }
}

/// The queue entries completed, front first, when the queue is drained.
pub open spec fn drain_completions(m: ManagerModel) -> Seq<QueueEntryModel>
    decreases m.queue.len(),
{
    if !m.started || m.queue.len() == 0 {
        Seq::<QueueEntryModel>::empty()
    } else {
        match m.queue[0] {
            QueueEntryModel::Stop => Seq::<QueueEntryModel>::empty(),
            QueueEntryModel::Task { name, id } => seq![m.queue[0]] + drain_completions(
                step_model(m),
            ),
        }
    }
}

/// The task entries of a queue that precede its first stop sentinel.
pub open spec fn tasks_before_stop(q: Seq<QueueEntryModel>) -> Seq<QueueEntryModel>
    decreases q.len(),
{
    if q.len() == 0 {
        Seq::<QueueEntryModel>::empty()
    } else {
        match q[0] {
            QueueEntryModel::Stop => Seq::<QueueEntryModel>::empty(),
            QueueEntryModel::Task { .. } => seq![q[0]] + tasks_before_stop(q.drop_first()),
        }
    }
}

/// Whether a stop sentinel sits somewhere in the queue.
pub open spec fn has_stop(q: Seq<QueueEntryModel>) -> bool {
    exists|i: int| 0 <= i < q.len() && (#[trigger] q[i]) is Stop
}

/// Submitting a task whose identity is already tracked in the store changes
/// nothing: neither a second record nor a second queue entry appears, so at
/// most one of each exists per outstanding identity.
pub proof fn lemma_duplicate_submission_is_noop(m: ManagerModel, rec: TaskState)
    requires
        has_identity(m.states, rec.task_name@, rec.task_id@),
    ensures
        submit_model(m, rec) == m,
{
}

/// Starting is idempotent: a start while already running is a no-op, so a
/// second start changes nothing.
pub proof fn lemma_start_idempotent(m: ManagerModel)
    ensures
        start_model(start_model(m)) == start_model(m),
{
}

/// Repeated submission, front of `recs` first.
pub open spec fn submit_all(m: ManagerModel, recs: Seq<TaskState>) -> ManagerModel
    decreases recs.len(),
{
    if recs.len() == 0 {
        m
    } else {
        submit_all(submit_model(m, recs[0]), recs.drop_first())
    }
}

/// Submitting K tasks with fresh, pairwise-distinct identities, before any
/// runs, leaves exactly K more records, all still `Pending`, and appends the
/// K task identities to the queue in submission order.
pub proof fn lemma_submissions_all_pending(m: ManagerModel, recs: Seq<TaskState>)
    requires
        all_pending(m.states),
        forall|k: int| 0 <= k < recs.len() ==> (#[trigger] recs[k]).status is Pending,
        forall|k: int|
            0 <= k < recs.len() ==> !has_identity(
                m.states,
                (#[trigger] recs[k]).task_name@,
                recs[k].task_id@,
            ),
        forall|k: int, l: int|
            0 <= k < l < recs.len() ==> !#[trigger] same_identity(recs[k], recs[l]),
    ensures
        submit_all(m, recs).states.len() == m.states.len() + recs.len(),
        all_pending(submit_all(m, recs).states),
        submit_all(m, recs).queue == m.queue + recs.map_values(
            |r: TaskState| QueueEntryModel::Task { name: r.task_name@, id: r.task_id@ },
        ),
        submit_all(m, recs).started == m.started,
        submit_all(m, recs).name == m.name,
    decreases recs.len(),
{
    let entries = recs.map_values(
        |r: TaskState| QueueEntryModel::Task { name: r.task_name@, id: r.task_id@ },
    );
    if recs.len() == 0 {
        assert(submit_all(m, recs).queue =~= m.queue + entries);
    } else {
        let first = recs[0];
        let rest = recs.drop_first();
        let m1 = submit_model(m, first);
        assert(m1 == accept_model(m, first));
        assert(all_pending(m1.states)) by {
            assert(forall|i: int|
                0 <= i < m.states.len() ==> m1.states[i] == #[trigger] m.states[i]);
        }
        assert forall|k: int|
            0 <= k < rest.len() implies !has_identity(
            m1.states,
            (#[trigger] rest[k]).task_name@,
            rest[k].task_id@,
        ) by {
            assert(rest[k] == recs[k + 1]);
            assert(!same_identity(recs[0], recs[k + 1]));
            assert forall|i: int|
                0 <= i < m1.states.len() implies !state_matches(
                #[trigger] m1.states[i],
                rest[k].task_name@,
                rest[k].task_id@,
            ) by {
                if i < m.states.len() {
                    assert(!has_identity(m.states, recs[k + 1].task_name@, recs[k + 1].task_id@));
                    assert(m1.states[i] == m.states[i]);
                } else {
                    assert(m1.states[i] == first);
                }
            }
        }
        lemma_submissions_all_pending(m1, rest);
        assert(submit_all(m, recs) == submit_all(m1, rest));
        assert(submit_all(m1, rest).queue == m1.queue + rest.map_values(
            |r: TaskState| QueueEntryModel::Task { name: r.task_name@, id: r.task_id@ },
        ));
        assert(m1.queue + rest.map_values(
            |r: TaskState| QueueEntryModel::Task { name: r.task_name@, id: r.task_id@ },
        ) =~= m.queue + entries);
    }
}

/// After a worker completes a task, no record for its identity remains: the
/// record is destroyed exactly once, after the run.
pub proof fn lemma_completed_record_absent(m: ManagerModel, name: Seq<char>, id: Seq<char>)
    requires
        distinct_identities(m.states),
        m.started,
        m.queue.len() > 0,
        m.queue[0] == (QueueEntryModel::Task { name, id }),
    ensures
        !has_identity(step_model(m).states, name, id),
{
    if has_identity(m.states, name, id) {
        let i = identity_index(m.states, name, id);
        let after = m.states.remove(i);
        assert forall|j: int| 0 <= j < after.len() implies !state_matches(
            #[trigger] after[j],
            name,
            id,
        ) by {
            let j0: int = if j < i { j } else { j + 1 };
            assert(after[j] == m.states[j0]);
            if state_matches(m.states[j0], name, id) {
                assert(same_identity(m.states[i], m.states[j0]));
            }
        }
    }
}

/// Clearing removes every record in the manager's scope, so a following
/// count of tasks reports zero.
pub proof fn lemma_clear_leaves_no_records(m: ManagerModel)
    ensures
        clear_model(m).states.len() == 0,
        clear_model(m).queue == m.queue,
{
}

/// Once a stop sentinel sits in the queue of a running manager, draining the
/// queue terminates with the running flag down: the single logical worker is
/// guaranteed to observe the stop signal.
pub proof fn lemma_drain_observes_stop(m: ManagerModel)
    requires
        m.started,
        has_stop(m.queue),
    ensures
        !drain_model(m).started,
    decreases m.queue.len(),
{
    let i = choose|i: int| 0 <= i < m.queue.len() && (#[trigger] m.queue[i]) is Stop;
    assert(drain_model(m) == drain_model(step_model(m)));
    match m.queue[0] {
        QueueEntryModel::Stop => {
            let m1 = step_model(m);
            assert(!m1.started);
            assert(drain_model(m1) == m1);
        },
        QueueEntryModel::Task { name, id } => {
            let m1 = step_model(m);
            assert(m1.queue[i - 1] == m.queue[i]);
            assert(has_stop(m1.queue));
            lemma_drain_observes_stop(m1);
        },
    }
}

/// A single worker completes tasks strictly in dequeue order: draining
/// completes exactly the task entries that precede the first stop sentinel,
/// in queue order — submission order is completion order.
pub proof fn lemma_drain_completes_in_order(m: ManagerModel)
    requires
        m.started,
    ensures
        drain_completions(m) == tasks_before_stop(m.queue),
    decreases m.queue.len(),
{
    if m.queue.len() == 0 {
    } else {
        match m.queue[0] {
            QueueEntryModel::Stop => {
            },
            QueueEntryModel::Task { name, id } => {
                let m1 = step_model(m);
                lemma_drain_completes_in_order(m1);
                assert(m1.queue =~= m.queue.drop_first());
                assert(drain_completions(m) == seq![m.queue[0]] + tasks_before_stop(
                    m.queue.drop_first(),
                ));
            },
        }
    }
}

/// What a worker leaves in the store after processing the task (`name`,
/// `id`): the record is possibly marked `Running`, then possibly deleted; a
/// store refusal leaves the corresponding step out, so a failed deletion can
/// orphan the record.
pub open spec fn processed_states(
    before: Seq<TaskState>,
    after: Seq<TaskState>,
    name: Seq<char>,
    id: Seq<char>,
) -> bool {
    exists|s1: Seq<TaskState>|
        #![trigger delete_identity(s1, name, id)]
        ((s1 == update_identity_status(before, name, id, TaskStatus::Running) || s1 == before) && (
        after == delete_identity(s1, name, id) || after == s1))
}

/// Draining's control flow reads only the queue and the flag: two models
/// that agree on both drain to the same queue and flag, whatever their
/// records.
proof fn lemma_drain_control(m1: ManagerModel, m2: ManagerModel)
    requires
        m1.queue == m2.queue,
        m1.started == m2.started,
    ensures
        drain_model(m1).queue == drain_model(m2).queue,
        drain_model(m1).started == drain_model(m2).started,
    decreases m1.queue.len(),
{
    if !m1.started || m1.queue.len() == 0 {
    } else {
        let s1 = step_model(m1);
        let s2 = step_model(m2);
        assert(s1.queue == s2.queue);
        assert(s1.started == s2.started);
        lemma_drain_control(s1, s2);
    }
}

/// The outcome of one worker iteration.
pub enum StepOutcome {
    /// The manager was not running, or the queue was empty: nothing was done.
    Idle,
    /// The stop sentinel was drained: the running flag is now down.
    Stopped,
    /// A task ran to completion; its name and id are carried here.
    Completed(String, String),
}

/// Task manager: accepts submissions, deduplicates them against the store,
/// and works the queue off in first-in-first-out order.
///
/// Deduplication, the queue discipline and the record lifecycle are proved
/// here over one logical worker stepping through the queue (`worker_step`,
/// `start_blocking`).  A concurrent shell may run `worker_count` such loops
/// over one shared manager; that adds only scheduling, under which
/// completion order across workers is no longer guaranteed.
pub struct TaskManager<S: TaskStore, T: Task> {
    /// Task queue, front at index 0.
    queue: Vec<QueueEntry<T>>,
    /// Task manager name.
    name: String,
    /// How many worker loops a concurrent driver would run.
    worker_count: usize,
    /// Task store tracking the state records.
    store: S,
    /// Whether the manager is running.
    started: bool,
}

impl<S: TaskStore, T: Task> View for TaskManager<S, T> {
    type V = ManagerModel;

    closed spec fn view(&self) -> ManagerModel {
        ManagerModel {
            states: self.store.states(),
            queue: queue_model(self.queue@),
            started: self.started,
            worker_count: self.worker_count as nat,
            name: self.name@,
        }
    }
}

impl<S: TaskStore, T: Task> TaskManager<S, T> {
    /// Well-formedness: the store is well-formed and the manager carries the
    /// store's scope label as its name.
    pub closed spec fn wf(&self) -> bool {
        self.store.inv() && self.name@ == self.store.manager_spec()
    }

    /// Create a new task manager over the given store, named after the
    /// store's scope, not yet started, with an empty queue.
    pub fn new(store: S, worker_count: usize) -> (r: Self)
        requires
            store.inv(),
        ensures
            r.wf(),
            r@ == (ManagerModel {
                states: store.states(),
                queue: Seq::<QueueEntryModel>::empty(),
                started: false,
                worker_count: worker_count as nat,
                name: store.manager_spec(),
            }),
    {
        let name = store.manager_name();
        let r = TaskManager { queue: Vec::new(), name, worker_count, store, started: false };
        proof {
            assert(r@ =~= (ManagerModel {
                states: r.store.states(),
                queue: Seq::<QueueEntryModel>::empty(),
                started: false,
                worker_count: worker_count as nat,
                name: r.store.manager_spec(),
            }));
        }
        r
    }

    /// Submit a task.  If a record for its identity is already tracked the
    /// submission is silently dropped; otherwise a `Pending` record is stored
    /// and the task joins the back of the queue.  A store failure during the
    /// existence check or the persist also drops the submission silently,
    /// changing nothing: no outcome is surfaced to the caller.
    pub fn run(&mut self, task: T)
        requires
            old(self).wf(),
        ensures
            final(self).wf(),
            has_identity(old(self)@.states, task.name_spec(), task.id_spec()) ==> final(self)@
                == old(self)@,
            !has_identity(old(self)@.states, task.name_spec(), task.id_spec()) ==> (final(self)@
                == old(self)@ || (exists|rec: TaskState|
                #[trigger] submitted_record(rec, task.name_spec(), task.id_spec(), old(self)@.name)
                    && final(self)@ == submit_model(old(self)@, rec))),
            !has_identity(old(self)@.states, task.name_spec(), task.id_spec()) && !S::fallible()
                ==> (exists|rec: TaskState|
                #[trigger] submitted_record(rec, task.name_spec(), task.id_spec(), old(self)@.name)
                    && final(self)@ == submit_model(old(self)@, rec)),
    {
        let ghost tname = task.name_spec();
        let ghost tid = task.id_spec();
        // Check if the task is already known.
        match self.store.get_state(&task) {
            Ok(r) => {
                if r.is_some() {
                    // The identity is already tracked: drop the submission.
                    return ;
                }
            },
            Err(_) => {
                // The state could not be retrieved: drop the submission.
                return ;
            },
        }
        // Add the task's state record to the store.
        match self.store.save_state(&task) {
            Ok(st) => {
                let ghost grec = st;
                // Add the task to the queue.
                self.queue.push(QueueEntry::Task(task));
                proof {
                    assert(submitted_record(grec, tname, tid, old(self)@.name));
                    assert(self@ =~= submit_model(old(self)@, grec));
                }
            },
            Err(_) => {
                // The record could not be saved: drop the submission.
                return ;
            },
        }
    }

    /// One worker iteration: take the front queue entry if the manager is
    /// running and one is there.  The stop sentinel takes the running flag
    /// down.  A task is marked `Running`, executed to completion, and its
    /// record is then deleted; a store failure at either step is tolerated
    /// and the iteration continues regardless, so a failed deletion can
    /// leave the record orphaned.
    pub fn worker_step(&mut self) -> (r: StepOutcome)
        requires
            old(self).wf(),
        ensures
            final(self).wf(),
            final(self)@.queue == step_model(old(self)@).queue,
            final(self)@.started == step_model(old(self)@).started,
            final(self)@.worker_count == old(self)@.worker_count,
            final(self)@.name == old(self)@.name,
            !S::fallible() ==> final(self)@ == step_model(old(self)@),
            match r {
                StepOutcome::Idle => (!old(self)@.started || old(self)@.queue.len() == 0)
                    && final(self)@ == old(self)@,
                StepOutcome::Stopped => old(self)@.started && old(self)@.queue.len() > 0 && old(
                    self,
                )@.queue[0] is Stop && final(self)@ == step_model(old(self)@),
                StepOutcome::Completed(n, i) => {
                    &&& old(self)@.started
                    &&& old(self)@.queue.len() > 0
                    &&& old(self)@.queue[0] == (QueueEntryModel::Task { name: n@, id: i@ })
                    &&& processed_states(old(self)@.states, final(self)@.states, n@, i@)
                },
            },
    {
        if !self.started || self.queue.len() == 0 {
            return StepOutcome::Idle;
        }
        let entry = self.queue.remove(0);
        match entry {
            QueueEntry::Stop => {
                self.started = false;
                proof {
                    assert(self@ =~= step_model(old(self)@));
                }
                StepOutcome::Stopped
            },
            QueueEntry::Task(t) => {
                let ghost s0 = self.store.states();
                proof {
                    self.store.inv_implies_distinct();
                }
                // Move the task's record to 'Running'; continue even if the
                // store refuses.
                match self.store.update_status(&t, TaskStatus::Running) {
                    Ok(()) => (),
                    Err(_) => (),
                }
                let ghost s1 = self.store.states();
                proof {
                    assert(s1 == update_identity_status(
                        s0,
                        t.name_spec(),
                        t.id_spec(),
                        TaskStatus::Running,
                    ) || s1 == s0);
                }
                // Run the task.
                t.run();
                // Clear the task's record; continue even if the store
                // refuses.
                match self.store.delete_state(&t) {
                    Ok(()) => (),
                    Err(_) => (),
                }
                proof {
                    assert(self.store.states() == delete_identity(
                        s1,
                        t.name_spec(),
                        t.id_spec(),
                    ) || self.store.states() == s1);
                    assert(queue_model(self.queue@) =~= old(self)@.queue.drop_first());
                    if !S::fallible() {
                        assert(s1 == update_identity_status(
                            s0,
                            t.name_spec(),
                            t.id_spec(),
                            TaskStatus::Running,
                        ));
                        assert(self.store.states() == delete_identity(
                            s1,
                            t.name_spec(),
                            t.id_spec(),
                        ));
                        lemma_update_then_delete(
                            old(self)@.states,
                            t.name_spec(),
                            t.id_spec(),
                            TaskStatus::Running,
                        );
                        assert(self@ =~= step_model(old(self)@));
                    }
                }
                StepOutcome::Completed(t.name(), t.id())
            },
        }
    }

    /// Start the task manager: a no-op while it is already running;
    /// otherwise the store is set up, stale records from any prior run are
    /// discarded, and the running flag goes up — unless the manager was
    /// configured with no workers, in which case nothing will ever run.
    pub fn start(&mut self)
        requires
            old(self).wf(),
        ensures
            final(self).wf(),
            old(self)@.started ==> final(self)@ == old(self)@,
            !old(self)@.started ==> (final(self)@ == start_model(old(self)@) || final(self)@
                == (ManagerModel { started: old(self)@.worker_count > 0, ..old(self)@ })),
            !S::fallible() ==> final(self)@ == start_model(old(self)@),
    {
        // Check if already started.
        if self.started {
            return ;
        }
        // Initialize the store; a failure here does not abort startup.
        match self.store.init() {
            Ok(()) => (),
            Err(_) => (),
        }
        // Discard any state left over from a previous run.
        self.clear();
        self.started = self.worker_count > 0;
        proof {
            if !S::fallible() {
                assert(self@ =~= start_model(old(self)@));
            }
            assert(self@ =~= start_model(old(self)@) || self@ =~= (ManagerModel {
                started: old(self)@.worker_count > 0,
                ..old(self)@
            }));
        }
    }

    /// Start the task manager and work the queue off until the stop sentinel
    /// is drained or the queue runs empty.  A no-op while already running.
    /// How far the queue is worked and where the flag lands do not depend on
    /// the store, so they are pinned down even for a fallible one.
    pub fn start_blocking(&mut self)
        requires
            old(self).wf(),
        ensures
            final(self).wf(),
            old(self)@.started ==> final(self)@ == old(self)@,
            !old(self)@.started ==> {
                &&& final(self)@.queue == drain_model(start_model(old(self)@)).queue
                &&& final(self)@.started == drain_model(start_model(old(self)@)).started
                &&& final(self)@.worker_count == old(self)@.worker_count
                &&& final(self)@.name == old(self)@.name
            },
            !old(self)@.started && !S::fallible() ==> final(self)@ == drain_model(
                start_model(old(self)@),
            ),
    {
        if self.started {
            return ;
        }
        self.start();
        let ghost ideal = drain_model(start_model(old(self)@));
        proof {
            assert(self@.queue == start_model(old(self)@).queue);
            assert(self@.started == start_model(old(self)@).started);
            lemma_drain_control(self@, start_model(old(self)@));
        }
        while self.started && self.queue.len() > 0
            invariant
                self.wf(),
                drain_model(self@).queue == ideal.queue,
                drain_model(self@).started == ideal.started,
                self@.worker_count == old(self)@.worker_count,
                self@.name == old(self)@.name,
                !S::fallible() ==> drain_model(self@) == ideal,
            decreases self@.queue.len(),
        {
            let ghost prev = self@;
            let _ = self.worker_step();
            proof {
                assert(prev.started && prev.queue.len() > 0);
                lemma_drain_control(self@, step_model(prev));
                assert(drain_model(prev) == drain_model(step_model(prev)));
            }
        }
        proof {
            assert(drain_model(self@) == self@);
        }
    }

    /// Request shutdown: enqueue exactly one stop sentinel.  Only the worker
    /// iteration that drains it observes the stop signal.
    pub fn stop(&mut self)
        requires
            old(self).wf(),
        ensures
            final(self).wf(),
            final(self)@ == stop_model(old(self)@),
    {
        self.queue.push(QueueEntry::Stop);
        proof {
            assert(self@ =~= stop_model(old(self)@));
        }
    }

    /// Clear the manager's task state records; a store failure leaves them
    /// untouched and is otherwise swallowed.
    pub fn clear(&mut self)
        requires
            old(self).wf(),
        ensures
            final(self).wf(),
            final(self)@ == clear_model(old(self)@) || final(self)@ == old(self)@,
            !S::fallible() ==> final(self)@ == clear_model(old(self)@),
    {
        match self.store.clear() {
            Ok(()) => {
                proof {
                    assert(self@ =~= clear_model(old(self)@));
                }
            },
            Err(_) => {
                proof {
                    assert(self@ =~= old(self)@);
                }
            },
        }
    }

    /// Get the manager's current state records; degrades to an empty list if
    /// the store cannot be read.
    pub fn get_state(&self) -> (r: Vec<TaskState>)
        requires
            self.wf(),
        ensures
            r@ == self@.states || r@ == Seq::<TaskState>::empty(),
            !S::fallible() ==> r@ == self@.states,
    {
        match self.store.get_all_states() {
            Ok(states) => states,
            Err(_) => Vec::new(),
        }
    }
}

} // verus!
