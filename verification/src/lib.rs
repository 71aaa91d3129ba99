//! An in-process task dispatcher: tasks identified by a (name, id) pair are
//! submitted to a manager, recorded as `Pending` in a pluggable state store,
//! queued in first-in-first-out order, marked `Running` when picked up, and
//! have their record deleted once their work has run to completion.  A task
//! identity is never scheduled twice while a prior record for it still exists.

pub mod manager;
pub mod store;
pub mod task;
mod util;
