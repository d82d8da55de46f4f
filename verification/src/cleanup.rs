//! The compensating-action log: an append-only record of cleanup tasks,
//! written as materialization proceeds and consumed exactly once when a
//! fatal error or an interruption is observed. The log is an explicit,
//! single-owner value threaded through the call chain; executing the plan
//! (removing directories, undoing a service) is the caller's.

use vstd::prelude::*;

verus! {

/// One compensating action, recorded before the side effect it undoes.
pub enum CleanupTask {
    /// Remove a directory tree that was created.
    RemoveDirectory(String),
    /// Undo the addition of a service to the project at `project_dir`:
    /// remove its package directory and every reference to it.
    RemoveService {
        /// The project the service was being added to.
        project_dir: String,
        /// The canonical name of the service.
        service_name: String,
    },
}

/// The append-only log of compensating actions of one invocation.
pub struct CleanupManager {
    tasks: Vec<CleanupTask>,
    needed: bool,
}

impl CleanupManager {
    /// The tasks recorded so far, in recording order.
    pub closed spec fn recorded(&self) -> Seq<CleanupTask> {
        self.tasks@
    }

    /// Whether a fatal condition has marked the log for execution.
    pub closed spec fn cleanup_needed(&self) -> bool {
        self.needed
    }

    /// An empty log.
    pub fn new() -> (m: Self)
        ensures
            m.recorded() == Seq::<CleanupTask>::empty(),
            !m.cleanup_needed(),
    {
        CleanupManager { tasks: Vec::new(), needed: false }
    }

    /// Appends one task. Tasks are never removed once added.
    pub fn add_task(&mut self, task: CleanupTask)
        ensures
            final(self).recorded() == old(self).recorded().push(task),
            final(self).cleanup_needed() == old(self).cleanup_needed(),
    {
        self.tasks.push(task);
    }

    /// Consumes the log and hands back the tasks to execute, last recorded
    /// first: compensating actions undo nested side effects in reverse
    /// order, so a child is removed before the parent that contains it.
    pub fn cleanup_plan(self) -> (r: Vec<CleanupTask>)
        ensures
            r@ == self.recorded().reverse(),
    {
        let ghost all = self.tasks@;
        let mut tasks = self.tasks;
        let mut r: Vec<CleanupTask> = Vec::new();
        while tasks.len() > 0
            invariant
                r@.len() + tasks@.len() == all.len(),
                tasks@ == all.subrange(0, tasks@.len() as int),
                forall|i: int| 0 <= i < r@.len() ==> r@[i] == all[all.len() - 1 - i],
            decreases tasks@.len(),
        {
            let ghost before = tasks@;
            let t = tasks.pop().unwrap();
            proof {
                assert(before.last() == all[before.len() - 1]);
                assert(tasks@ =~= all.subrange(0, tasks@.len() as int));
            }
            r.push(t);
        }
        proof {
            assert(r@ =~= all.reverse());
        }
        r
    }
}

/// Marks the log for execution: a fatal error or an external interruption
/// was observed, and every task recorded so far is to be run.
pub fn set_cleanup_needed(manager: &mut CleanupManager)
    ensures
        final(manager).cleanup_needed(),
        final(manager).recorded() == old(manager).recorded(),
{
    manager.needed = true;
}

} // verus!
