//! Waking a process whose system call can make progress.
use vstd::prelude::*;
use crate::process::TaskState;
use crate::scheduler::{Scheduler, pid_index};

verus! {

/// Wakes the process `task_id`.
#[derive(Debug, Clone, Copy, PartialEq, Eq, Structural)]
pub struct ProcessWaker {
    pub task_id: u64,
}

impl ProcessWaker {
    pub fn new(task_id: u64) -> (w: ProcessWaker)
        ensures
            w.task_id == task_id,
    {
        ProcessWaker { task_id }
    }

    /// A process waiting on its system call is marked for polling; any other
    /// state is left alone, and a process that has gone is ignored.
    pub fn wake(&self, s: &mut Scheduler)
        requires
            old(s).wf(),
        ensures
            final(s).wf(),
            final(s).running_process == old(s).running_process,
            final(s).next_pid == old(s).next_pid,
            final(s).process_table@.len() == old(s).process_table@.len(),
            forall|j: int| 0 <= j < final(s).process_table@.len() ==> {
                let before = old(s).process_table@[j];
                let after = #[trigger] final(s).process_table@[j];
                &&& after.0 == before.0
                &&& after.1.context == before.1.context
                &&& after.1.state == if before.0 == self.task_id && before.1.state is Waiting {
                    TaskState::AsyncSyscall { future: before.1.state->Waiting_future }
                } else {
                    before.1.state
                }
            },
    {
        match s.find(self.task_id) {
            None => {
                proof {
                    assert forall|j: int| 0 <= j < s.process_table@.len() implies s.process_table@[j].0 != self.task_id by {
                        if s.process_table@[j].0 == self.task_id {
                            assert(exists|k: int| 0 <= k < s.process_table@.len() && s.process_table@[k].0 == self.task_id);
                        }
                    }
                }
            },
            Some(i) => {
                match s.process_table[i].1.state {
                    TaskState::Waiting { future } => {
                        let (p0, mut p) = s.process_table.remove(i);
                        p.set_state(TaskState::AsyncSyscall { future });
                        s.process_table.insert(i, (p0, p));
                        proof {
                            let t = s.process_table@;
                            let ot = old(s).process_table@;
                            assert forall|j: int| 0 <= j < t.len() && j != i implies #[trigger] t[j] == ot[j] by {}
                            assert forall|j: int| 0 <= j < t.len() && j != i implies ot[j].0 != self.task_id by {
                                if j < i { assert(ot[j].0 < ot[i as int].0); } else { assert(ot[i as int].0 < ot[j].0); }
                            }
                            assert forall|a: int, b: int| 0 <= a < b < t.len() implies t[a].0 < t[b].0 by {
                                assert(t[a].0 == ot[a].0);
                                assert(t[b].0 == ot[b].0);
                            }
                        }
                    },
                    _ => {
                        proof {
                            let ot = old(s).process_table@;
                            assert forall|j: int| 0 <= j < ot.len() && j != i implies ot[j].0 != self.task_id by {
                                if j < i { assert(ot[j].0 < ot[i as int].0); } else { assert(ot[i as int].0 < ot[j].0); }
                            }
                        }
                    },
                }
            },
        }
    }
}

} // verus!
