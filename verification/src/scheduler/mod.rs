//! Scheduling: the process table, which task runs next, processes created,
//! forked and ended, and system calls waiting to be polled.
use vstd::prelude::*;
use crate::process::{GeneralPurposeRegisters, Process, ProcessContext, TaskState, TaskType};
use crate::memory::user_address_space::AddressSpace;
use crate::drivers::hpet::{Hpet, TimerProgram, tick_period, add_periodic};

pub mod signal;
pub mod elf_loader;
pub mod process_waker;

verus! {

/// The processes by number, in increasing order; the running one; and the
/// next number to hand out. Process 0 is the idle thread.
pub struct Scheduler {
    pub process_table: Vec<(u64, Process)>,
    pub running_process: Option<u64>,
    pub next_pid: u64,
}

pub open spec fn pids_increasing(t: Seq<(u64, Process)>) -> bool {
    forall|i: int, j: int| 0 <= i < j < t.len() ==> t[i].0 < t[j].0
}

/// Position of process `pid` in the table.
pub open spec fn pid_index(t: Seq<(u64, Process)>, pid: u64) -> Option<int> {
    if exists|i: int| 0 <= i < t.len() && t[i].0 == pid {
        Some(choose|i: int| 0 <= i < t.len() && t[i].0 == pid)
    } else {
        None
    }
}

proof fn lemma_pid_index(t: Seq<(u64, Process)>, i: int)
    requires
        pids_increasing(t),
        0 <= i < t.len(),
    ensures
        pid_index(t, t[i].0) == Some(i),
{
    let c = choose|j: int| 0 <= j < t.len() && t[j].0 == t[i].0;
    assert(c == i) by {
        if c < i { assert(t[c].0 < t[i].0); }
        if c > i { assert(t[i].0 < t[c].0); }
    }
}

/// The first step `m` from `m0` on of a round-robin scan starting at
/// position `start` that reaches a runnable process other than the idle
/// thread.
pub open spec fn rr_pick(t: Seq<(u64, Process)>, start: int, m: int) -> Option<int>
    decreases t.len() - m,
{
    if m < 0 || m >= t.len() {
        None
    } else {
        let idx = (start + m) % (t.len() as int);
        if t[idx].0 != 0 && t[idx].1.state == TaskState::Running {
            Some(idx)
        } else {
            rr_pick(t, start, m + 1)
        }
    }
}

/// Where the round-robin scan starts: just after the running process, or
/// at the beginning.
pub open spec fn rr_start(t: Seq<(u64, Process)>, running: Option<u64>) -> int {
    match running {
        Some(pid) => match pid_index(t, pid) {
            Some(i) => (i + 1) % (t.len() as int),
            None => 0,
        },
        None => 0,
    }
}

impl Scheduler {
    pub open spec fn wf(&self) -> bool {
        &&& pids_increasing(self.process_table@)
        &&& forall|i: int| 0 <= i < self.process_table@.len() ==> (#[trigger] self.process_table@[i]).0 < self.next_pid
    }

    pub open spec fn has(&self, pid: u64) -> bool {
        pid_index(self.process_table@, pid) is Some
    }

    pub open spec fn process(&self, pid: u64) -> Process {
        self.process_table@[pid_index(self.process_table@, pid).unwrap()].1
    }

    /// Position of process `pid`, if it exists.
    pub fn find(&self, pid: u64) -> (r: Option<usize>)
        requires
            self.wf(),
        ensures
            r matches Some(i) ==> pid_index(self.process_table@, pid) == Some(i as int)
                && i < self.process_table@.len() && self.process_table@[i as int].0 == pid,
            r is None <==> pid_index(self.process_table@, pid) is None,
    {
        let mut i: usize = 0;
        while i < self.process_table.len()
            invariant
                self.wf(),
                i <= self.process_table@.len(),
                forall|j: int| 0 <= j < i ==> self.process_table@[j].0 != pid,
            decreases self.process_table@.len() - i,
        {
            if self.process_table[i].0 == pid {
                proof { lemma_pid_index(self.process_table@, i as int); }
                return Some(i);
            }
            i = i + 1;
        }
        None
    }
}

/// A scheduler with only the idle thread, as process 0, and nothing
/// running; numbers are handed out from 1.
pub fn init(idle: Process) -> (s: Scheduler)
    ensures
        s.wf(),
        s.process_table@.len() == 1,
        s.process_table@[0].0 == 0,
        s.process_table@[0].1 == idle,
        s.running_process is None,
        s.next_pid == 1,
{
    let mut t: Vec<(u64, Process)> = Vec::new();
    t.push((0, idle));
    Scheduler { process_table: t, running_process: None, next_pid: 1 }
}

/// Start the scheduler tick: a periodic callback (number 0, doing nothing)
/// every millisecond, so that interrupts keep returning through the
/// scheduler.
pub fn start(hpet: &mut Hpet, config_now: u64, main_counter: u64) -> (r: Option<(u8, TimerProgram)>)
    requires
        tick_period(old(hpet).capabilities) != 0,
    ensures
        old(hpet).free_counters@.len() == 0 <==> r is None,
        r matches Some((c, p)) ==> {
            &&& c == old(hpet).free_counters@.last()
            &&& p == old(hpet).set_timer_spec(1, true, config_now, main_counter)
            &&& final(hpet).periodic_counters@ == old(hpet).periodic_counters@.push(c)
        },
{
    add_periodic(hpet, 1, 0, config_now, main_counter)
}

/// Add the kernel thread `p` under the next number and make it the running
/// one; give its number.
pub fn kthread_start(s: &mut Scheduler, p: Process) -> (pid: u64)
    requires
        old(s).wf(),
        old(s).next_pid < u64::MAX,
    ensures
        final(s).wf(),
        pid == old(s).next_pid,
        final(s).next_pid == pid + 1,
        final(s).process_table@ == old(s).process_table@.push((pid, p)),
        final(s).running_process == Some(pid),
{
    let pid = s.next_pid;
    s.next_pid = pid + 1;
    s.process_table.push((pid, p));
    s.running_process = Some(pid);
    pid
}

/// The running process's number; something must be running.
pub fn get_current_pid(s: &Scheduler) -> (pid: u64)
    requires
        s.running_process is Some,
    ensures
        Some(pid) == s.running_process,
{
    match s.running_process {
        Some(p) => p,
        None => 0,
    }
}

/// Process `id`, if it exists.
pub fn get_process_by_id(s: &Scheduler, id: u64) -> (r: Option<&Process>)
    requires
        s.wf(),
    ensures
        s.has(id) <==> r is Some,
        r matches Some(p) ==> *p == s.process(id),
{
    match s.find(id) {
        Some(i) => Some(&s.process_table[i].1),
        None => None,
    }
}

/// The running process; it must exist.
pub fn get_current_process(s: &Scheduler) -> (p: &Process)
    requires
        s.wf(),
        s.running_process matches Some(pid) && s.has(pid),
    ensures
        *p == s.process(s.running_process.unwrap()),
{
    let pid = get_current_pid(s);
    let i = s.find(pid).unwrap();
    &s.process_table[i].1
}

/// Fork the running process: its copy, in the address space `task_type`,
/// is added under the next number, which is given back.
pub fn fork_current_process(s: &mut Scheduler, rip: u64, task_type: TaskType) -> (pid: u64)
    requires
        old(s).wf(),
        old(s).next_pid < u64::MAX,
        old(s).running_process matches Some(cur) && old(s).has(cur),
    ensures
        final(s).wf(),
        pid == old(s).next_pid,
        final(s).next_pid == pid + 1,
        final(s).process_table@.len() == old(s).process_table@.len() + 1,
        final(s).process_table@.drop_last() == old(s).process_table@,
        final(s).process_table@.last().0 == pid,
        ({
            let child = final(s).process_table@.last().1;
            let parent = old(s).process(old(s).running_process.unwrap());
            &&& child.file_descriptors@ == parent.file_descriptors@
            &&& child.signals@ == parent.signals@
            &&& child.args@ == parent.args@
            &&& child.envvars@ == parent.envvars@
            &&& child.auxvs@ == parent.auxvs@
            &&& child.context == (ProcessContext {
                gprs: GeneralPurposeRegisters { rax: 0, ..parent.context.gprs },
                ..parent.context
            })
            &&& child.state == TaskState::Running
            &&& child.task_type == task_type
            &&& child.cwd@ == parent.cwd@
            &&& child.sigmask == parent.sigmask
        }),
        final(s).running_process == old(s).running_process,
{
    let pid = s.next_pid;
    s.next_pid = pid + 1;
    let cur = get_current_pid(s);
    let i = s.find(cur).unwrap();
    let child = Process::from_existing(&s.process_table[i].1, rip, task_type);
    s.process_table.push((pid, child));
    proof {
        assert(s.process_table@.drop_last() =~= old(s).process_table@);
    }
    pid
}

/// End the running process: it leaves the table, and a user process's
/// address space is emptied and handed back for its pages to be released.
/// Something must be running, and it must exist.
pub fn exit(s: &mut Scheduler, exit_code: u64) -> (space: Option<AddressSpace>)
    requires
        old(s).wf(),
        old(s).running_process matches Some(pid) && old(s).has(pid),
    ensures
        final(s).wf(),
        ({
            let pid = old(s).running_process.unwrap();
            let i = pid_index(old(s).process_table@, pid).unwrap();
            &&& final(s).process_table@ == old(s).process_table@.remove(i)
            &&& !final(s).has(pid)
            &&& match old(s).process_table@[i].1.task_type {
                TaskType::Kernel => space is None,
                TaskType::User(a) => space matches Some(o) && o.pt4 == a.pt4
                    && o.mapped_regions@ == Map::<u64, u64>::empty(),
            }
        }),
        final(s).running_process == old(s).running_process,
        final(s).next_pid == old(s).next_pid,
{
    let pid = get_current_pid(s);
    let i = s.find(pid).unwrap();
    let (_, p) = s.process_table.remove(i);
    proof {
        let t = s.process_table@;
        assert forall|a: int, b: int| 0 <= a < b < t.len() implies t[a].0 < t[b].0 by {
            let ot = old(s).process_table@;
            let a2 = if a < i { a } else { a + 1 };
            let b2 = if b < i { b } else { b + 1 };
            assert(t[a] == ot[a2]);
            assert(t[b] == ot[b2]);
        }
        assert(!(exists|j: int| 0 <= j < t.len() && t[j].0 == pid)) by {
            if exists|j: int| 0 <= j < t.len() && t[j].0 == pid {
                let j = choose|j: int| 0 <= j < t.len() && t[j].0 == pid;
                let ot = old(s).process_table@;
                let j2 = if j < i { j } else { j + 1 };
                assert(t[j] == ot[j2]);
                assert(ot[i as int].0 == pid);
            }
        }
    }
    match p.task_type {
        TaskType::Kernel => None,
        TaskType::User(mut a) => {
            a.clear_user_space();
            Some(a)
        },
    }
}

/// Pick the next task: scanning round-robin from just after the running
/// process, the first runnable process other than the idle thread becomes
/// the running one; with none, the idle thread runs. Gives the context to
/// resume and, for a user process, the page table to switch to.
pub fn next_task(s: &mut Scheduler) -> (r: (ProcessContext, Option<u64>))
    requires
        old(s).wf(),
        old(s).has(0),
    ensures
        final(s).process_table == old(s).process_table,
        final(s).next_pid == old(s).next_pid,
        ({
            let t = old(s).process_table@;
            match rr_pick(t, rr_start(t, old(s).running_process), 0) {
                Some(idx) => {
                    &&& final(s).running_process == Some(t[idx].0)
                    &&& r.0 == t[idx].1.context
                    &&& r.1 == match t[idx].1.task_type {
                        TaskType::User(a) => Some(a.pt4),
                        TaskType::Kernel => None::<u64>,
                    }
                },
                None => {
                    &&& final(s).running_process == Some(0u64)
                    &&& r.0 == old(s).process(0).context
                    &&& r.1 is None
                },
            }
        }),
{
    let ghost t = s.process_table@;
    let idle_i = s.find(0).unwrap();
    let idle_ctx = s.process_table[idle_i].1.context;
    let n = s.process_table.len();
    let start: usize = match s.running_process {
        Some(pid) => match s.find(pid) {
            Some(i) => (i + 1) % n,
            None => 0,
        },
        None => 0,
    };
    assert(start as int == rr_start(t, s.running_process));
    let mut m: usize = 0;
    while m < n
        invariant
            t == s.process_table@,
            s.process_table == old(s).process_table,
            s.next_pid == old(s).next_pid,
            t == old(s).process_table@,
            start as int == rr_start(t, old(s).running_process),
            n == t.len(),
            n >= 1,
            start < n,
            m <= n,
            rr_pick(t, start as int, 0) == rr_pick(t, start as int, m as int),
        decreases n - m,
    {
        let idx = if m < n - start { start + m } else { m - (n - start) };
        assert(idx as int == (start + m) % (n as int)) by {
            if m < n - start {
                vstd::arithmetic::div_mod::lemma_small_mod((start + m) as nat, n as nat);
            } else {
                vstd::arithmetic::div_mod::lemma_mod_sub_multiples_vanish((start + m) as int, n as int);
                vstd::arithmetic::div_mod::lemma_small_mod((start + m - n) as nat, n as nat);
            }
        }
        let pid = s.process_table[idx].0;
        if pid != 0 {
            if let TaskState::Running = s.process_table[idx].1.state {
                assert(rr_pick(t, start as int, m as int) == Some(idx as int));
                s.running_process = Some(pid);
                let ctx = s.process_table[idx].1.context;
                let pt = match &s.process_table[idx].1.task_type {
                    TaskType::User(a) => Some(a.pt4),
                    TaskType::Kernel => None,
                };
                return (ctx, pt);
            }
        }
        m = m + 1;
    }
    s.running_process = Some(0);
    (idle_ctx, None)
}

/// The system calls to poll: each process waiting to be polled, with its
/// future.
pub open spec fn pending_polls(t: Seq<(u64, Process)>) -> Seq<(u64, u64)>
    decreases t.len(),
{
    if t.len() == 0 {
        Seq::empty()
    } else {
        let rest = pending_polls(t.drop_last());
        match t.last().1.state {
            TaskState::AsyncSyscall { future } => rest.push((t.last().0, future)),
            _ => rest,
        }
    }
}

/// The system calls to poll, in process order.
pub fn get_futures_to_poll(s: &Scheduler) -> (r: Vec<(u64, u64)>)
    ensures
        r@ == pending_polls(s.process_table@),
{
    let mut out: Vec<(u64, u64)> = Vec::new();
    let mut i: usize = 0;
    while i < s.process_table.len()
        invariant
            i <= s.process_table@.len(),
            out@ == pending_polls(s.process_table@.take(i as int)),
        decreases s.process_table@.len() - i,
    {
        assert(s.process_table@.take(i + 1).drop_last() =~= s.process_table@.take(i as int));
        match s.process_table[i].1.state {
            TaskState::AsyncSyscall { future } => out.push((s.process_table[i].0, future)),
            _ => {},
        }
        i = i + 1;
    }
    assert(s.process_table@.take(i as int) =~= s.process_table@);
    out
}

/// The outcome of polling process `pid`'s system call: finished with
/// `result` (return value and error number), or still pending on `future`.
/// The process becomes the running one while it is polled.
pub fn poll_outcome(s: &mut Scheduler, pid: u64, result: Option<(u64, u64)>, future: u64)
    requires
        old(s).wf(),
        old(s).has(pid),
    ensures
        final(s).wf(),
        final(s).running_process == Some(pid),
        final(s).next_pid == old(s).next_pid,
        final(s).process_table@.len() == old(s).process_table@.len(),
        ({
            let i = pid_index(old(s).process_table@, pid).unwrap();
            let before = old(s).process_table@[i].1;
            let after = final(s).process_table@[i].1;
            &&& final(s).process_table@[i].0 == pid
            &&& forall|j: int| 0 <= j < final(s).process_table@.len() && j != i ==>
                #[trigger] final(s).process_table@[j] == old(s).process_table@[j]
            &&& match result {
                Some((rax, rdx)) => {
                    &&& after.state == TaskState::Running
                    &&& after.context.gprs.rax == rax
                    &&& after.context.gprs.rdx == rdx
                },
                None => after.state == (TaskState::Waiting { future }),
            }
        }),
{
    s.running_process = Some(pid);
    let i = s.find(pid).unwrap();
    let (p0, mut p) = s.process_table.remove(i);
    match result {
        Some((rax, rdx)) => p.syscall_return(rax, rdx),
        None => p.set_state(TaskState::Waiting { future }),
    }
    s.process_table.insert(i, (p0, p));
    proof {
        let t = s.process_table@;
        let ot = old(s).process_table@;
        assert(t.len() == ot.len());
        assert forall|j: int| 0 <= j < t.len() && j != i implies #[trigger] t[j] == ot[j] by {}
        assert forall|a: int, b: int| 0 <= a < b < t.len() implies t[a].0 < t[b].0 by {
            assert(t[a].0 == ot[a].0);
            assert(t[b].0 == ot[b].0);
        }
    }
}

} // verus!
