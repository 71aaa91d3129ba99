use vstd::prelude::*;

verus! {

/// The unit-of-work capability supplied by callers of the manager.
///
/// A task is identified by its (name, id) pair: two tasks with the same name
/// and the same id are the same task for deduplication.  `name` and `id` are
/// expected to be pure: the ghost functions `name_spec` and `id_spec` fix the
/// identity once and for all, and the executable accessors must return it.
///
/// `run` performs the work; it has no contract and no observable result
/// beyond its own side effects, and is expected to run to natural completion.
pub trait Task: Sized {
    /// The task's name, as a ghost value.  An implementation verified against
    /// the manager's contracts overrides this; left alone, the name is an
    /// unspecified value.
    open spec fn name_spec(&self) -> Seq<char> {
        vstd::pervasive::arbitrary()
    }

    /// The task's unique id, as a ghost value.  An implementation verified
    /// against the manager's contracts overrides this; left alone, the id is
    /// an unspecified value.
    open spec fn id_spec(&self) -> Seq<char> {
        vstd::pervasive::arbitrary()
    }

    /// Return the name of the task.
    fn name(&self) -> (r: String)
        ensures
            r@ == self.name_spec(),
    ;

    /// Return the unique id of the task.
    /// Two tasks with the same name and the same id are considered equal.
    fn id(&self) -> (r: String)
        ensures
            r@ == self.id_spec(),
    ;

    /// Task execution.
    fn run(&self);
}

/// Whether two tasks are the same task: both name and id are equal.
pub fn same_task<A: Task, B: Task>(a: &A, b: &B) -> (r: bool)
    ensures
        r == (a.name_spec() == b.name_spec() && a.id_spec() == b.id_spec()),
{
    a.name() == b.name() && a.id() == b.id()
}

} // verus!
