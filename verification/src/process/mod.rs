//! Processes: saved registers, state, file descriptors, signal handlers and
//! mask, and what `execve`, `fork` and program loading do to them.
use vstd::prelude::*;
use crate::memory::user_address_space::AddressSpace;
use crate::scheduler::elf_loader::Elf;
use crate::scheduler::signal::SignalHandler;
use std::collections::BTreeMap;
use crate::utils::entry_of;
use crate::process::stack::{StackPlan, plan_stack, strings_area, pointers_area, c_string_ok};

pub mod stack;

verus! {

/// Auxiliary-vector entry types.
pub const AT_NUL: u64 = 0;
pub const AT_PHDR: u64 = 3;
pub const AT_PHENT: u64 = 4;
pub const AT_PHNUM: u64 = 5;
pub const AT_BASE: u64 = 7;
pub const AT_ENTRY: u64 = 9;

/// Size of a kernel thread's stack.
pub const KERNEL_STACK_SIZE: u64 = 8 * 1024 * 1024;

/// Flags a task starts with: interrupts enabled.
pub const INITIAL_RFLAGS: u64 = 0x202;

/// The general-purpose registers, in the order the interrupt entry pushes
/// them.
#[derive(Copy, Clone, Debug, PartialEq, Eq, Structural)]
pub struct GeneralPurposeRegisters {
    pub r15: u64,
    pub r14: u64,
    pub r13: u64,
    pub r12: u64,
    pub r11: u64,
    pub r10: u64,
    pub r9: u64,
    pub r8: u64,
    pub rbp: u64,
    pub rdi: u64,
    pub rsi: u64,
    pub rdx: u64,
    pub rcx: u64,
    pub rbx: u64,
    pub rax: u64,
}

pub open spec fn zero_registers() -> GeneralPurposeRegisters {
    GeneralPurposeRegisters {
        r15: 0, r14: 0, r13: 0, r12: 0, r11: 0, r10: 0, r9: 0, r8: 0,
        rbp: 0, rdi: 0, rsi: 0, rdx: 0, rcx: 0, rbx: 0, rax: 0,
    }
}

impl Default for GeneralPurposeRegisters {
    fn default() -> (r: Self)
        ensures
            r == zero_registers(),
    {
        GeneralPurposeRegisters {
            r15: 0, r14: 0, r13: 0, r12: 0, r11: 0, r10: 0, r9: 0, r8: 0,
            rbp: 0, rdi: 0, rsi: 0, rdx: 0, rcx: 0, rbx: 0, rax: 0,
        }
    }
}

/// Everything restored when a task resumes.
#[derive(Copy, Clone, Debug, PartialEq, Eq, Structural)]
pub struct ProcessContext {
    pub gprs: GeneralPurposeRegisters,
    pub rflags: u64,
    pub rip: u64,
    pub rsp: u64,
    pub cs: u64,
    pub ss: u64,
}

/// An auxiliary-vector entry.
#[derive(Copy, Clone, Debug, PartialEq, Eq, Structural)]
pub struct AuxVector {
    pub auxv_type: u64,
    pub value: u64,
}

/// What a task is doing: being set up, runnable, with a system call to poll,
/// or waiting for a system call to be woken. A pending system call is named
/// by the number of its future.
#[derive(Copy, Clone, Debug, PartialEq, Eq, Structural)]
pub enum TaskState {
    Setup,
    Running,
    AsyncSyscall { future: u64 },
    Waiting { future: u64 },
}

/// A user process with its address space, or a kernel thread.
pub enum TaskType {
    User(AddressSpace),
    Kernel,
}

/// An open file descriptor: the open file it refers to and its flags.
#[derive(Copy, Clone, Debug, PartialEq, Eq, Structural)]
pub struct FileDescriptor {
    pub file_description: u64,
    pub flags: u64,
}

/// A process or kernel thread.
pub struct Process {
    pub file_descriptors: BTreeMap<u64, FileDescriptor>,
    pub args: Vec<String>,
    pub envvars: Vec<String>,
    pub auxvs: Vec<AuxVector>,
    pub context: ProcessContext,
    pub state: TaskState,
    pub task_type: TaskType,
    pub cwd: String,
    pub signals: BTreeMap<u64, SignalHandler>,
    pub sigmask: u64,
}

/// A run of `n` numbers from `start` on, all in `d`, makes `d` at least `n`
/// long.
proof fn lemma_run_in_set(d: Set<u64>, start: u64, n: nat)
    requires
        d.finite(),
        start + n <= u64::MAX + 1,
        forall|k: u64| start <= k < start + n ==> d.contains(k),
    ensures
        d.len() >= n,
    decreases n,
{
    if n > 0 {
        let last = (start + n - 1) as u64;
        assert(d.contains(last));
        lemma_run_in_set(d.remove(last), start, (n - 1) as nat);
    }
}

/// Put `v` under the lowest number from `start` on that `m` leaves free,
/// and give that number.
fn insert_lowest_free<V>(m: &mut BTreeMap<u64, V>, start: u64, v: V) -> (r: u64)
    requires
        start + old(m)@.len() < u64::MAX,
    ensures
        r >= start,
        !old(m)@.contains_key(r),
        forall|k: u64| start <= k < r ==> old(m)@.contains_key(k),
        final(m)@ == old(m)@.insert(r, v),
{
    broadcast use vstd::std_specs::btree::group_btree_axioms;
    let mut i: u64 = start;
    while m.contains_key(&i)
        invariant
            start <= i <= start + m@.len(),
            start + m@.len() < u64::MAX,
            forall|k: u64| start <= k < i ==> m@.contains_key(k),
        decreases start + m@.len() - i,
    {
        proof {
            lemma_run_in_set(m@.dom(), start, (i - start + 1) as nat);
        }
        i = i + 1;
    }
    m.insert(i, v);
    i
}

/// Copy of a list of strings.
pub fn copy_strings(v: &Vec<String>) -> (r: Vec<String>)
    ensures
        r@ == v@,
{
    let mut out: Vec<String> = Vec::new();
    let mut i: usize = 0;
    while i < v.len()
        invariant
            i <= v@.len(),
            out@ == v@.take(i as int),
        decreases v@.len() - i,
    {
        let s = v[i].clone();
        out.push(s);
        assert(v@.take(i + 1) =~= v@.take(i as int).push(v@[i as int]));
        i = i + 1;
    }
    assert(v@.take(i as int) =~= v@);
    out
}

impl Process {
    /// A kernel thread starting at `rip`, on the stack whose lowest address
    /// is `stack_base`, with the kernel's code and data selectors. It runs as
    /// `init` with the default search path, in `/`.
    pub fn new_kthread(rip: u64, stack_base: u64, kernel_code: u16, kernel_data: u16) -> (p: Process)
        requires
            stack_base + KERNEL_STACK_SIZE <= u64::MAX,
        ensures
            p.context == (ProcessContext {
                gprs: zero_registers(),
                rflags: INITIAL_RFLAGS,
                rip,
                rsp: (stack_base + KERNEL_STACK_SIZE) as u64,
                cs: kernel_code as u64,
                ss: kernel_data as u64,
            }),
            p.state == TaskState::Running,
            p.task_type is Kernel,
            p.args@.len() == 1 && p.args@[0]@ == "init"@,
            p.envvars@.len() == 1 && p.envvars@[0]@ == "PATH=/bin:/usr/bin"@,
            p.auxvs@.len() == 0,
            p.cwd@ == "/"@,
            forall|k: u64| !p.file_descriptors@.contains_key(k),
            forall|k: u64| !p.signals@.contains_key(k),
            p.sigmask == 0,
    {
        let mut args: Vec<String> = Vec::new();
        args.push("init".to_owned());
        let mut envvars: Vec<String> = Vec::new();
        envvars.push("PATH=/bin:/usr/bin".to_owned());
        Process {
            file_descriptors: BTreeMap::new(),
            args,
            envvars,
            auxvs: Vec::new(),
            context: ProcessContext {
                gprs: GeneralPurposeRegisters::default(),
                rflags: INITIAL_RFLAGS,
                rip,
                rsp: stack_base + KERNEL_STACK_SIZE,
                cs: kernel_code as u64,
                ss: kernel_data as u64,
            },
            state: TaskState::Running,
            task_type: TaskType::Kernel,
            cwd: "/".to_owned(),
            signals: BTreeMap::new(),
            sigmask: 0,
        }
    }

    /// Replace the program: a fresh user address space, new arguments and
    /// environment, cleared registers (flags reset), no auxiliary vector and
    /// no signal handlers. A user process's old address space is emptied and
    /// handed back for its pages to be released.
    pub fn execve(&mut self, new_args: Vec<String>, new_envvars: Vec<String>, fresh: AddressSpace) -> (old_space: Option<AddressSpace>)
        ensures
            final(self).task_type == TaskType::User(fresh),
            match old(self).task_type {
                TaskType::Kernel => old_space is None,
                TaskType::User(s) => old_space matches Some(o) && o.pt4 == s.pt4
                    && o.mapped_regions@ == Map::<u64, u64>::empty(),
            },
            final(self).args@ == new_args@,
            final(self).envvars@ == new_envvars@,
            final(self).context == (ProcessContext { gprs: zero_registers(), rflags: INITIAL_RFLAGS, ..old(self).context }),
            final(self).auxvs@.len() == 0,
            forall|k: u64| !final(self).signals@.contains_key(k),
            final(self).file_descriptors == old(self).file_descriptors,
            final(self).state == old(self).state,
            final(self).cwd == old(self).cwd,
            final(self).sigmask == old(self).sigmask,
    {
        let mut old_type = TaskType::User(fresh);
        std::mem::swap(&mut self.task_type, &mut old_type);
        let old_space = match old_type {
            TaskType::Kernel => None,
            TaskType::User(mut s) => {
                s.clear_user_space();
                Some(s)
            },
        };
        self.args = new_args;
        self.envvars = new_envvars;
        self.context.gprs = GeneralPurposeRegisters::default();
        self.context.rflags = INITIAL_RFLAGS;
        self.auxvs = Vec::new();
        self.signals = BTreeMap::new();
        old_space
    }

    /// The child of `fork`: a copy of `old` with `rax` cleared (the child's
    /// return value), running, in the address space `task_type` (a copy of
    /// the parent's, or none for a kernel thread). `rip` is not used: the
    /// child resumes where the parent will.
    pub fn from_existing(old: &Process, rip: u64, task_type: TaskType) -> (p: Process)
        ensures
            p.file_descriptors@ == old.file_descriptors@,
            p.signals@ == old.signals@,
            p.args@ == old.args@,
            p.envvars@ == old.envvars@,
            p.auxvs@ == old.auxvs@,
            p.context == (ProcessContext {
                gprs: GeneralPurposeRegisters { rax: 0, ..old.context.gprs },
                ..old.context
            }),
            p.state == TaskState::Running,
            p.task_type == task_type,
            p.cwd@ == old.cwd@,
            p.sigmask == old.sigmask,
    {
        let mut context = old.context;
        context.gprs.rax = 0;
        let mut auxvs: Vec<AuxVector> = Vec::new();
        let mut i: usize = 0;
        while i < old.auxvs.len()
            invariant
                i <= old.auxvs@.len(),
                auxvs@ == old.auxvs@.take(i as int),
            decreases old.auxvs@.len() - i,
        {
            auxvs.push(old.auxvs[i]);
            assert(old.auxvs@.take(i + 1) =~= old.auxvs@.take(i as int).push(old.auxvs@[i as int]));
            i = i + 1;
        }
        assert(old.auxvs@.take(i as int) =~= old.auxvs@);
        Process {
            file_descriptors: old.file_descriptors.clone(),
            args: copy_strings(&old.args),
            envvars: copy_strings(&old.envvars),
            auxvs,
            context,
            state: TaskState::Running,
            task_type,
            cwd: old.cwd.clone(),
            signals: old.signals.clone(),
            sigmask: old.sigmask,
        }
    }

    /// Make the process start in the dynamic loader `ld_so`, which loads the
    /// program `elf`: user code and data selectors, the loader's entry, and
    /// the auxiliary vector the loader reads (loader base, program entry,
    /// program headers, their size and count, end marker).
    pub fn attach_loaded_elf(&mut self, elf: Elf, ld_so: Elf, user_code: u16, user_data: u16)
        ensures
            final(self).context == (ProcessContext {
                cs: user_code as u64,
                ss: user_data as u64,
                rip: ld_so.entry,
                ..old(self).context
            }),
            final(self).auxvs@ == old(self).auxvs@
                .push(AuxVector { auxv_type: AT_BASE, value: ld_so.base })
                .push(AuxVector { auxv_type: AT_ENTRY, value: elf.entry })
                .push(AuxVector { auxv_type: AT_PHDR, value: elf.program_header })
                .push(AuxVector { auxv_type: AT_PHENT, value: elf.program_header_entry_size })
                .push(AuxVector { auxv_type: AT_PHNUM, value: elf.program_header_entry_count })
                .push(AuxVector { auxv_type: AT_NUL, value: 0 }),
            final(self).file_descriptors == old(self).file_descriptors,
            final(self).signals == old(self).signals,
            final(self).state == old(self).state,
            final(self).sigmask == old(self).sigmask,
    {
        self.context.cs = user_code as u64;
        self.context.ss = user_data as u64;
        self.context.rip = ld_so.entry;
        self.auxvs.push(AuxVector { auxv_type: AT_BASE, value: ld_so.base });
        self.auxvs.push(AuxVector { auxv_type: AT_ENTRY, value: elf.entry });
        self.auxvs.push(AuxVector { auxv_type: AT_PHDR, value: elf.program_header });
        self.auxvs.push(AuxVector { auxv_type: AT_PHENT, value: elf.program_header_entry_size });
        self.auxvs.push(AuxVector { auxv_type: AT_PHNUM, value: elf.program_header_entry_count });
        self.auxvs.push(AuxVector { auxv_type: AT_NUL, value: 0 });
    }

    /// Lay out the initial stack of a user process under `stack_top` (the
    /// end of its freshly allocated stack), point the stack pointer at it
    /// and make the process runnable. The caller copies the plan into the
    /// address space. A kernel thread has no user stack to set up.
    pub fn init_stack_and_start(&mut self, stack_top: u64) -> (r: StackPlan)
        requires
            old(self).task_type is User,
            strings_area(old(self).envvars@, old(self).args@)
                + pointers_area(old(self).args@.len() as int, old(self).envvars@.len() as int, old(self).auxvs@.len() as int)
                <= stack_top,
            forall|k: int| 0 <= k < old(self).args@.len() ==> c_string_ok(#[trigger] old(self).args@[k]),
            forall|k: int| 0 <= k < old(self).envvars@.len() ==> c_string_ok(#[trigger] old(self).envvars@[k]),
        ensures
            stack::plan_matches(stack_top, old(self).args@, old(self).envvars@, old(self).auxvs@, r),
            final(self).context == (ProcessContext { rsp: r.rsp, ..old(self).context }),
            final(self).state == TaskState::Running,
            final(self).args == old(self).args,
            final(self).envvars == old(self).envvars,
            final(self).auxvs == old(self).auxvs,
    {
        let plan = plan_stack(stack_top, &self.args, &self.envvars, &self.auxvs);
        self.context.rsp = plan.rsp;
        self.state = TaskState::Running;
        plan
    }

    /// Save the registers of an interrupted task.
    pub fn set_registers(&mut self, rsp: u64, rip: u64, rflags: u64, registers: &GeneralPurposeRegisters)
        ensures
            final(self).context == (ProcessContext { rsp, rip, rflags, gprs: *registers, ..old(self).context }),
            final(self).state == old(self).state,
    {
        self.context.rsp = rsp;
        self.context.rip = rip;
        self.context.rflags = rflags;
        self.context.gprs = *registers;
    }

    /// The handler installed for `signal`, if any.
    pub fn get_current_signal_handler(&self, signal: u64) -> (r: Option<SignalHandler>)
        ensures
            r == entry_of(self.signals@, signal),
    {
        match self.signals.get(&signal) {
            Some(h) => Some(*h),
            None => None,
        }
    }

    /// Install `handler` for `signal`, replacing the one there was.
    pub fn install_signal_handler(&mut self, signal: u64, handler: SignalHandler)
        ensures
            entry_of(final(self).signals@, signal) == Some(handler),
            forall|s: u64| s != signal ==> #[trigger] entry_of(final(self).signals@, s) == entry_of(old(self).signals@, s),
            final(self).file_descriptors == old(self).file_descriptors,
    {
        self.signals.insert(signal, handler);
    }

    /// Finish a system call: its return value in `rax`, its error in `rdx`,
    /// and the task runnable again.
    pub fn syscall_return(&mut self, rax: u64, rdx: u64)
        ensures
            final(self).context == (ProcessContext {
                gprs: GeneralPurposeRegisters { rax, rdx, ..old(self).context.gprs },
                ..old(self).context
            }),
            final(self).state == TaskState::Running,
    {
        self.context.gprs.rax = rax;
        self.context.gprs.rdx = rdx;
        self.state = TaskState::Running;
    }

    pub fn get_context(&self) -> (r: ProcessContext)
        ensures
            r == self.context,
    {
        self.context
    }

    pub fn get_state(&self) -> (r: TaskState)
        ensures
            r == self.state,
    {
        self.state
    }

    pub fn set_state(&mut self, new_state: TaskState)
        ensures
            final(self).state == new_state,
            final(self).context == old(self).context,
    {
        self.state = new_state;
    }

    /// Open `fd` under the lowest free descriptor number, and give it.
    pub fn emplace_fd(&mut self, fd: FileDescriptor) -> (r: u64)
        requires
            old(self).file_descriptors@.len() < u64::MAX,
        ensures
            !old(self).file_descriptors@.contains_key(r),
            forall|k: u64| k < r ==> old(self).file_descriptors@.contains_key(k),
            entry_of(final(self).file_descriptors@, r) == Some(fd),
            forall|k: u64| k != r ==> #[trigger] entry_of(final(self).file_descriptors@, k)
                == entry_of(old(self).file_descriptors@, k),
            final(self).signals == old(self).signals,
    {
        insert_lowest_free(&mut self.file_descriptors, 0, fd)
    }

    /// Open `fd` under `fd_num`, or when that is taken and `try_greater`
    /// holds, under the lowest free number above it. A taken number without
    /// `try_greater` is refused by a panic, so it must be free then.
    pub fn emplace_fd_at(&mut self, fd: FileDescriptor, fd_num: u64, try_greater: bool) -> (r: u64)
        requires
            try_greater || !old(self).file_descriptors@.contains_key(fd_num),
            fd_num + old(self).file_descriptors@.len() < u64::MAX,
        ensures
            r >= fd_num,
            !old(self).file_descriptors@.contains_key(r),
            forall|k: u64| fd_num <= k < r ==> old(self).file_descriptors@.contains_key(k),
            entry_of(final(self).file_descriptors@, r) == Some(fd),
            forall|k: u64| k != r ==> #[trigger] entry_of(final(self).file_descriptors@, k)
                == entry_of(old(self).file_descriptors@, k),
            final(self).signals == old(self).signals,
    {
        insert_lowest_free(&mut self.file_descriptors, fd_num, fd)
    }

    /// Change the flags of an open descriptor.
    pub fn set_fd_flags(&mut self, fd: u64, flags: u64)
        requires
            old(self).file_descriptors@.contains_key(fd),
        ensures
            entry_of(final(self).file_descriptors@, fd) == Some(FileDescriptor {
                flags,
                ..entry_of(old(self).file_descriptors@, fd).unwrap()
            }),
            forall|k: u64| k != fd ==> #[trigger] entry_of(final(self).file_descriptors@, k)
                == entry_of(old(self).file_descriptors@, k),
            final(self).signals == old(self).signals,
            final(self).sigmask == old(self).sigmask,
    {
        let cur = *self.file_descriptors.get(&fd).unwrap();
        self.file_descriptors.insert(fd, FileDescriptor { flags, ..cur });
    }

    /// Close an open descriptor.
    pub fn close_fd(&mut self, fd: u64)
        requires
            old(self).file_descriptors@.contains_key(fd),
        ensures
            !final(self).file_descriptors@.contains_key(fd),
            forall|k: u64| k != fd ==> #[trigger] entry_of(final(self).file_descriptors@, k)
                == entry_of(old(self).file_descriptors@, k),
            final(self).signals == old(self).signals,
            final(self).sigmask == old(self).sigmask,
    {
        self.file_descriptors.remove(&fd);
    }

    /// An open descriptor.
    pub fn get_file_descriptor(&self, fd: u64) -> (r: FileDescriptor)
        requires
            self.file_descriptors@.contains_key(fd),
        ensures
            Some(r) == entry_of(self.file_descriptors@, fd),
    {
        *self.file_descriptors.get(&fd).unwrap()
    }

    pub fn set_cwd(&mut self, new_cwd: String)
        ensures
            final(self).cwd == new_cwd,
    {
        self.cwd = new_cwd;
    }

    pub fn get_cwd(&self) -> (r: String)
        ensures
            r@ == self.cwd@,
    {
        self.cwd.clone()
    }

    pub fn get_current_sigprocmask(&self) -> (r: u64)
        ensures
            r == self.sigmask,
    {
        self.sigmask
    }

    /// Block the signals in `newset` as well.
    pub fn signal_mask_block(&mut self, newset: u64)
        ensures
            final(self).sigmask == old(self).sigmask | newset,
            final(self).file_descriptors == old(self).file_descriptors,
            final(self).signals == old(self).signals,
    {
        self.sigmask = self.sigmask | newset;
    }

    /// Unblock the signals in `newset`.
    pub fn signal_mask_unblock(&mut self, newset: u64)
        ensures
            final(self).sigmask == old(self).sigmask & !newset,
            final(self).file_descriptors == old(self).file_descriptors,
            final(self).signals == old(self).signals,
    {
        self.sigmask = self.sigmask & !newset;
    }

    /// Block exactly the signals in `newset`.
    pub fn signal_mask_setmask(&mut self, newset: u64)
        ensures
            final(self).sigmask == newset,
            final(self).file_descriptors == old(self).file_descriptors,
            final(self).signals == old(self).signals,
    {
        self.sigmask = newset;
    }
}

/// Blocking a set of signals none of which was blocked, then unblocking it,
/// leaves the mask as it was.
pub proof fn lemma_block_then_unblock(mask: u64, set: u64)
    requires
        mask & set == 0,
    ensures
        (mask | set) & !set == mask,
{
    assert(mask & set == 0 ==> (mask | set) & !set == mask) by (bit_vector);
}

} // verus!
