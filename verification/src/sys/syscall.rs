//! System-call numbers, results, and decoding a request from its registers.
use vstd::prelude::*;
use crate::fs::fat::fat1216::SeekFrom;
use crate::process::{Process, FileDescriptor};
use crate::utils::entry_of;
use crate::sys::ioctl::IoCtl;

verus! {

/// What a failed call hands back in place of a value.
pub const ERROR_RETURN: u64 = 0xFFFF_FFFF_FFFF_FFFF;

/// Error numbers returned to user space.
#[derive(Debug, Clone, Copy, PartialEq, Eq, Structural)]
pub enum CanonicalError {
    NoError,
    NoEnt,
    Io,
    Badf,
    Again,
    Access,
    Fault,
    NotDir,
    Inval,
    SPipe,
    Range,
}

impl CanonicalError {
    pub open spec fn spec_number(self) -> u64 {
        match self {
            CanonicalError::NoError => 0,
            CanonicalError::NoEnt => 2,
            CanonicalError::Io => 5,
            CanonicalError::Badf => 9,
            CanonicalError::Again => 11,
            CanonicalError::Access => 13,
            CanonicalError::Fault => 14,
            CanonicalError::NotDir => 20,
            CanonicalError::Inval => 22,
            CanonicalError::SPipe => 29,
            CanonicalError::Range => 34,
        }
    }

    /// The error number user space sees.
    pub fn number(self) -> (r: u64)
        ensures
            r == self.spec_number(),
    {
        match self {
            CanonicalError::NoError => 0,
            CanonicalError::NoEnt => 2,
            CanonicalError::Io => 5,
            CanonicalError::Badf => 9,
            CanonicalError::Again => 11,
            CanonicalError::Access => 13,
            CanonicalError::Fault => 14,
            CanonicalError::NotDir => 20,
            CanonicalError::Inval => 22,
            CanonicalError::SPipe => 29,
            CanonicalError::Range => 34,
        }
    }
}


/// What a system call hands back to user space: a value and an error number.
#[derive(Debug, Clone, Copy, PartialEq, Eq, Structural)]
pub struct SyscallResult {
    pub return_value: u64,
    pub err_num: u64,
}

impl SyscallResult {
    /// A call that succeeded with `value`.
    pub fn success(value: u64) -> (r: SyscallResult)
        ensures
            r.return_value == value,
            r.err_num == 0,
    {
        SyscallResult { return_value: value, err_num: 0 }
    }

    /// A call that failed with `err`.
    pub fn error(err: CanonicalError) -> (r: SyscallResult)
        ensures
            r.return_value == ERROR_RETURN,
            r.err_num == err.spec_number(),
    {
        SyscallResult { return_value: ERROR_RETURN, err_num: err.number() }
    }

    /// The answer to a call that produced `result`.
    pub fn from_result(result: Result<u64, CanonicalError>) -> (r: SyscallResult)
        ensures
            match result {
                Ok(v) => r.return_value == v && r.err_num == 0,
                Err(e) => r.return_value == ERROR_RETURN && r.err_num == e.spec_number(),
            },
    {
        match result {
            Ok(v) => SyscallResult::success(v),
            Err(e) => SyscallResult::error(e),
        }
    }
}

/// The operations of `fcntl`.
#[derive(Debug, Clone, Copy, PartialEq, Eq, Structural)]
pub enum FcntlOperation {
    DupFD,
    GetFD,
    SetFD,
    GetFlags,
}

impl FcntlOperation {
    pub open spec fn spec_from_number(n: u64) -> Option<FcntlOperation> {
        if n == 1 {
            Some(FcntlOperation::DupFD)
        } else if n == 3 {
            Some(FcntlOperation::GetFD)
        } else if n == 4 {
            Some(FcntlOperation::SetFD)
        } else if n == 5 {
            Some(FcntlOperation::GetFlags)
        } else {
            None
        }
    }

    /// The operation numbered `n`, if there is one.
    pub fn from_number(n: u64) -> (r: Option<FcntlOperation>)
        ensures
            r == Self::spec_from_number(n),
    {
        if n == 1 {
            Some(FcntlOperation::DupFD)
        } else if n == 3 {
            Some(FcntlOperation::GetFD)
        } else if n == 4 {
            Some(FcntlOperation::SetFD)
        } else if n == 5 {
            Some(FcntlOperation::GetFlags)
        } else {
            None
        }
    }
}

/// Bits of `poll` events.
pub const POLL_IN: u16 = 0x01;
pub const POLL_OUT: u16 = 0x02;
pub const POLL_PRI: u16 = 0x04;
pub const POLL_HUP: u16 = 0x08;
pub const POLL_ERR: u16 = 0x10;
pub const POLL_RDHUP: u16 = 0x20;
pub const POLL_NVAL: u16 = 0x40;
pub const POLL_WRNORM: u16 = 0x80;
pub const POLL_RDNORM: u16 = 0x100;
pub const POLL_WRBAND: u16 = 0x200;
pub const POLL_RDBAND: u16 = 0x400;

/// A set of `poll` events, as the bits user space gave.
#[derive(Debug, Clone, Copy, PartialEq, Eq, Structural)]
pub struct PollEvents {
    pub bits: u16,
}

impl PollEvents {
    /// Whether every event of `other` is in this set.
    pub fn contains(self, other: PollEvents) -> (r: bool)
        ensures
            r == (self.bits & other.bits == other.bits),
    {
        self.bits & other.bits == other.bits
    }
}

/// One entry of the array `poll` takes: a descriptor (negative: skipped),
/// the events asked for and those that occurred.
#[derive(Debug, Clone, Copy, PartialEq, Eq, Structural)]
pub struct PollFd {
    pub fd: i32,
    pub events: PollEvents,
    pub revents: PollEvents,
}

/// Bytes of an entry as user memory lays it out.
pub const POLLFD_SIZE: usize = 8;

/// The bytes of a `u16`, lowest first.
pub open spec fn u16_bytes(v: u16) -> Seq<u8> {
    seq![v as u8, (v >> 8u16) as u8]
}

/// The bytes of a `u32`, lowest first.
pub open spec fn u32_bytes(v: u32) -> Seq<u8> {
    seq![v as u8, (v >> 8u32) as u8, (v >> 16u32) as u8, (v >> 24u32) as u8]
}

/// An entry as user memory holds it: the descriptor, then the two event sets.
pub open spec fn pollfd_bytes(p: PollFd) -> Seq<u8> {
    u32_bytes(p.fd as u32) + u16_bytes(p.events.bits) + u16_bytes(p.revents.bits)
}

fn push_u16(buf: &mut Vec<u8>, v: u16)
    ensures
        final(buf)@ == old(buf)@ + u16_bytes(v),
{
    buf.push((v & 0xff) as u8);
    buf.push((v >> 8u16) as u8);
    assert((v & 0xff) as u8 == v as u8) by (bit_vector);
    assert(final(buf)@ =~= old(buf)@ + u16_bytes(v));
}

fn push_u32(buf: &mut Vec<u8>, v: u32)
    ensures
        final(buf)@ == old(buf)@ + u32_bytes(v),
{
    buf.push((v & 0xff) as u8);
    buf.push(((v >> 8u32) & 0xff) as u8);
    buf.push(((v >> 16u32) & 0xff) as u8);
    buf.push((v >> 24u32) as u8);
    assert((v & 0xff) as u8 == v as u8) by (bit_vector);
    assert(((v >> 8u32) & 0xff) as u8 == (v >> 8u32) as u8) by (bit_vector);
    assert(((v >> 16u32) & 0xff) as u8 == (v >> 16u32) as u8) by (bit_vector);
    assert(final(buf)@ =~= old(buf)@ + u32_bytes(v));
}

impl PollFd {
    /// The entry as user memory holds it.
    pub fn to_bytes(&self) -> (r: Vec<u8>)
        ensures
            r@ == pollfd_bytes(*self),
    {
        let mut v: Vec<u8> = Vec::new();
        push_u32(&mut v, self.fd as u32);
        push_u16(&mut v, self.events.bits);
        push_u16(&mut v, self.revents.bits);
        assert(v@ =~= pollfd_bytes(*self));
        v
    }

    /// The entry held by the first bytes of `b`.
    pub fn from_bytes(b: &[u8]) -> (r: PollFd)
        requires
            b@.len() >= POLLFD_SIZE,
        ensures
            r.fd == crate::le::le32(b@, 0) as u32 as i32,
            r.events.bits == crate::le::le16(b@, 4),
            r.revents.bits == crate::le::le16(b@, 6),
    {
        let fd = crate::le::read_u32(b, 0);
        let events = crate::le::read_u16(b, 4);
        let revents = crate::le::read_u16(b, 6);
        PollFd { fd: fd as i32, events: PollEvents { bits: events }, revents: PollEvents { bits: revents } }
    }
}

proof fn lemma_u16_bytes(v: u16)
    ensures
        u16_bytes(v)[0] + u16_bytes(v)[1] * 256 == v,
{
    assert((v as u8) as u16 + ((v >> 8u16) as u8) as u16 * 256 == v) by (bit_vector);
}

proof fn lemma_u32_bytes(v: u32)
    ensures
        u32_bytes(v)[0] + u32_bytes(v)[1] * 256 + (u32_bytes(v)[2] + u32_bytes(v)[3] * 256) * 65536 == v,
{
    assert((v as u8) as u32 + ((v >> 8u32) as u8) as u32 * 256
        + (((v >> 16u32) as u8) as u32 + ((v >> 24u32) as u8) as u32 * 256) * 65536 == v) by (bit_vector);
}

/// Reading back an entry that was written gives the same entry.
pub proof fn lemma_pollfd_round_trip(p: PollFd)
    ensures
        crate::le::le32(pollfd_bytes(p), 0) as u32 as i32 == p.fd,
        crate::le::le16(pollfd_bytes(p), 4) == p.events.bits,
        crate::le::le16(pollfd_bytes(p), 6) == p.revents.bits,
{
    let b = pollfd_bytes(p);
    lemma_u32_bytes(p.fd as u32);
    lemma_u16_bytes(p.events.bits);
    lemma_u16_bytes(p.revents.bits);
    assert(crate::le::le32(b, 0) == p.fd as u32);
    let fd = p.fd;
    assert((fd as u32) as i32 == fd) by (bit_vector);
}

/// Where a seek with origin number `whence` leads: 1 from the current
/// offset, 2 from the end, 3 from the start; the offset taken as signed.
pub open spec fn spec_seek_from(whence: u64, offset: u64) -> Option<SeekFrom> {
    if whence == 1 {
        Some(SeekFrom::Current(offset as i64))
    } else if whence == 2 {
        Some(SeekFrom::End(offset as i64))
    } else if whence == 3 {
        Some(SeekFrom::Start(offset as i64))
    } else {
        None
    }
}

/// The seek a `seek` call asks for, if its origin number is known.
pub fn seek_from(whence: u64, offset: u64) -> (r: Option<SeekFrom>)
    ensures
        r == spec_seek_from(whence, offset),
{
    if whence == 1 {
        Some(SeekFrom::Current(offset as i64))
    } else if whence == 2 {
        Some(SeekFrom::End(offset as i64))
    } else if whence == 3 {
        Some(SeekFrom::Start(offset as i64))
    } else {
        None
    }
}

/// The open flags this kernel handles: the access mode, `O_CREAT`,
/// `O_NOCTTY`, `O_TRUNC` and `O_NOFOLLOW`.
pub const OPEN_UNSUPPORTED_FLAGS: u64 = 0xFFFF_FFFF_FFFF_FD68;

/// The descriptor flags `fcntl` may set.
pub const SETFD_UNSUPPORTED_FLAGS: u64 = 0xFFFF_FFFF_FFFF_FF78;

/// Whether `open` handles every flag given; the others are not implemented.
pub fn open_flags_supported(flags: u64) -> (r: bool)
    ensures
        r == (flags & OPEN_UNSUPPORTED_FLAGS == 0),
{
    flags & OPEN_UNSUPPORTED_FLAGS == 0
}

/// Whether `fcntl` can set the descriptor flags given.
pub fn setfd_flags_supported(flags: u64) -> (r: bool)
    ensures
        r == (flags & SETFD_UNSUPPORTED_FLAGS == 0),
{
    flags & SETFD_UNSUPPORTED_FLAGS == 0
}

/// How `sigprocmask` changes the mask.
#[derive(Debug, Clone, Copy, PartialEq, Eq, Structural)]
pub enum SigmaskHow {
    Block,
    Unblock,
    SetMask,
}

pub open spec fn spec_sigmask_how(how: u64) -> Option<SigmaskHow> {
    if how == 1 {
        Some(SigmaskHow::Block)
    } else if how == 2 {
        Some(SigmaskHow::Unblock)
    } else if how == 3 {
        Some(SigmaskHow::SetMask)
    } else {
        None
    }
}

/// The change numbered `how`, if there is one.
pub fn sigmask_how(how: u64) -> (r: Option<SigmaskHow>)
    ensures
        r == spec_sigmask_how(how),
{
    if how == 1 {
        Some(SigmaskHow::Block)
    } else if how == 2 {
        Some(SigmaskHow::Unblock)
    } else if how == 3 {
        Some(SigmaskHow::SetMask)
    } else {
        None
    }
}

/// The mask after a `sigprocmask` of kind `how` with `set`.
pub open spec fn spec_new_sigmask(old: u64, how: SigmaskHow, set: u64) -> u64 {
    match how {
        SigmaskHow::Block => old | set,
        SigmaskHow::Unblock => old & !set,
        SigmaskHow::SetMask => set,
    }
}

/// Change the signal mask of `process` as `sigprocmask` asks, with the set
/// already read from user memory. An unknown `how` changes nothing and is
/// refused with `EINVAL`.
pub fn sys_sigprocmask(process: &mut Process, how: u64, newset: u64) -> (r: SyscallResult)
    ensures
        match spec_sigmask_how(how) {
            Some(h) => final(process).sigmask == spec_new_sigmask(old(process).sigmask, h, newset)
                && r == (SyscallResult { return_value: 0, err_num: 0 }),
            None => final(process).sigmask == old(process).sigmask
                && r == (SyscallResult { return_value: ERROR_RETURN, err_num: 22 }),
        },
        final(process).file_descriptors == old(process).file_descriptors,
        final(process).signals == old(process).signals,
{
    match sigmask_how(how) {
        Some(SigmaskHow::Block) => process.signal_mask_block(newset),
        Some(SigmaskHow::Unblock) => process.signal_mask_unblock(newset),
        Some(SigmaskHow::SetMask) => process.signal_mask_setmask(newset),
        None => return SyscallResult::error(CanonicalError::Inval),
    }
    SyscallResult::success(0)
}

/// `close`: forget an open descriptor. Closing one that is not open is a
/// kernel panic, so it must be open.
pub fn sys_close(process: &mut Process, fd: u64) -> (r: SyscallResult)
    requires
        old(process).file_descriptors@.contains_key(fd),
    ensures
        !final(process).file_descriptors@.contains_key(fd),
        forall|k: u64| k != fd ==> #[trigger] entry_of(final(process).file_descriptors@, k)
            == entry_of(old(process).file_descriptors@, k),
        r == (SyscallResult { return_value: 0, err_num: 0 }),
{
    process.close_fd(fd);
    SyscallResult::success(0)
}

/// `dup`: open the file of `fd` again under the lowest free number.
pub fn sys_dup(process: &mut Process, fd: u64) -> (r: SyscallResult)
    requires
        old(process).file_descriptors@.contains_key(fd),
        old(process).file_descriptors@.len() < u64::MAX,
    ensures
        r.err_num == 0,
        !old(process).file_descriptors@.contains_key(r.return_value),
        forall|k: u64| k < r.return_value ==> old(process).file_descriptors@.contains_key(k),
        entry_of(final(process).file_descriptors@, r.return_value) == entry_of(old(process).file_descriptors@, fd),
        forall|k: u64| k != r.return_value ==> #[trigger] entry_of(final(process).file_descriptors@, k)
            == entry_of(old(process).file_descriptors@, k),
{
    let d = process.get_file_descriptor(fd);
    let n = process.emplace_fd(d);
    SyscallResult::success(n)
}

/// `fcntl` on an open descriptor: duplicate it under the lowest free number
/// from `param` on, give its flags, or set them. An unknown operation is
/// refused with `EINVAL` and changes nothing. Descriptor flags that cannot
/// be set are a kernel panic, so they are not given.
pub fn sys_fcntl(process: &mut Process, fd_num: u64, operation: u64, param: u64) -> (r: SyscallResult)
    requires
        (FcntlOperation::spec_from_number(operation) is Some) ==> old(process).file_descriptors@.contains_key(fd_num),
        FcntlOperation::spec_from_number(operation) == Some(FcntlOperation::SetFD)
            ==> param & SETFD_UNSUPPORTED_FLAGS == 0,
        FcntlOperation::spec_from_number(operation) == Some(FcntlOperation::DupFD)
            ==> param + old(process).file_descriptors@.len() < u64::MAX,
    ensures
        final(process).signals == old(process).signals,
        match FcntlOperation::spec_from_number(operation) {
            None => r == (SyscallResult { return_value: ERROR_RETURN, err_num: 22 })
                && final(process).file_descriptors == old(process).file_descriptors,
            Some(FcntlOperation::DupFD) => {
                &&& r.err_num == 0
                &&& r.return_value >= param
                &&& !old(process).file_descriptors@.contains_key(r.return_value)
                &&& forall|k: u64| param <= k < r.return_value ==> old(process).file_descriptors@.contains_key(k)
                &&& entry_of(final(process).file_descriptors@, r.return_value)
                    == entry_of(old(process).file_descriptors@, fd_num)
                &&& forall|k: u64| k != r.return_value ==> #[trigger] entry_of(final(process).file_descriptors@, k)
                    == entry_of(old(process).file_descriptors@, k)
            },
            Some(FcntlOperation::SetFD) => {
                &&& r == (SyscallResult { return_value: 0, err_num: 0 })
                &&& entry_of(final(process).file_descriptors@, fd_num) == Some(FileDescriptor {
                        flags: param,
                        ..entry_of(old(process).file_descriptors@, fd_num).unwrap()
                    })
                &&& forall|k: u64| k != fd_num ==> #[trigger] entry_of(final(process).file_descriptors@, k)
                    == entry_of(old(process).file_descriptors@, k)
            },
            Some(_) => r == (SyscallResult {
                    return_value: entry_of(old(process).file_descriptors@, fd_num).unwrap().flags,
                    err_num: 0,
                })
                && final(process).file_descriptors == old(process).file_descriptors,
        },
{
    match FcntlOperation::from_number(operation) {
        None => SyscallResult::error(CanonicalError::Inval),
        Some(FcntlOperation::DupFD) => {
            let d = process.get_file_descriptor(fd_num);
            let n = process.emplace_fd_at(d, param, true);
            SyscallResult::success(n)
        },
        Some(FcntlOperation::SetFD) => {
            process.set_fd_flags(fd_num, param);
            SyscallResult::success(0)
        },
        Some(_) => {
            let d = process.get_file_descriptor(fd_num);
            SyscallResult::success(d.flags)
        },
    }
}

/// A system call as its registers ask for it: the number in `rax` picks
/// the call, and the arguments come in `rdi`, `rsi`, `rdx`, `r10`, `r8`,
/// `r9`, each call taking those it needs.
#[derive(Debug, Clone, Copy, PartialEq, Eq, Structural)]
pub enum SyscallRequest {
    Write { fd: u64, buf: u64, count: u64 },
    Read { fd: u64, buf: u64, count: u64 },
    Open { path: u64, flags: u64 },
    Close { fd: u64 },
    Ioctl { fd: u64, request: u64, buf: u64 },
    Stat { path: u64, buf: u64 },
    Dup { fd: u64 },
    Fcntl { fd: u64, operation: u64, param: u64 },
    Seek { fd: u64, offset: u64, whence: u64 },
    Mmap { start: u64, count: u64, flags: u64 },
    Pipe { fds: u64, flags: u64 },
    Fstat { fd: u64, buf: u64 },
    Exit { code: u64 },
    Poll { fds: u64, nfds: u64, timeout: u64 },
    Sigaction { signum: u64, new_action: u64, old_action: u64 },
    Sigprocmask { how: u64, set: u64, oldset: u64 },
    Getcwd { buf: u64, count: u64 },
    Fork,
    Execve { path: u64, args: u64, envvars: u64 },
    Getpid,
    Getppid,
    Getpgid,
    TcbSet { fs_base: u64 },
}

/// The call the registers ask for; `None` for a number no call has.
pub open spec fn spec_decode_syscall(rax: u64, rdi: u64, rsi: u64, rdx: u64, r8: u64) -> Option<SyscallRequest> {
    if rax == 0x0 {
        Some(SyscallRequest::Write { fd: rdi, buf: rsi, count: rdx })
    } else if rax == 0x1 {
        Some(SyscallRequest::Read { fd: rdi, buf: rsi, count: rdx })
    } else if rax == 0x2 {
        Some(SyscallRequest::Open { path: rdi, flags: rsi })
    } else if rax == 0x3 {
        Some(SyscallRequest::Close { fd: rdi })
    } else if rax == 0x4 {
        Some(SyscallRequest::Ioctl { fd: rdi, request: rsi, buf: rdx })
    } else if rax == 0x5 {
        Some(SyscallRequest::Stat { path: rdi, buf: rsi })
    } else if rax == 0x6 {
        Some(SyscallRequest::Dup { fd: rdi })
    } else if rax == 0x7 {
        Some(SyscallRequest::Fcntl { fd: rdi, operation: rsi, param: rdx })
    } else if rax == 0x8 {
        Some(SyscallRequest::Seek { fd: rdi, offset: rsi, whence: rdx })
    } else if rax == 0x9 {
        Some(SyscallRequest::Mmap { start: rdi, count: rsi, flags: r8 })
    } else if rax == 0xa {
        Some(SyscallRequest::Pipe { fds: rdi, flags: rsi })
    } else if rax == 0xb {
        Some(SyscallRequest::Fstat { fd: rdi, buf: rsi })
    } else if rax == 0xc {
        Some(SyscallRequest::Exit { code: rdi })
    } else if rax == 0xd {
        Some(SyscallRequest::Poll { fds: rdi, nfds: rsi, timeout: rdx })
    } else if rax == 0x10 {
        Some(SyscallRequest::Sigaction { signum: rdi, new_action: rsi, old_action: rdx })
    } else if rax == 0x11 {
        Some(SyscallRequest::Sigprocmask { how: rdi, set: rsi, oldset: rdx })
    } else if rax == 0x20 {
        Some(SyscallRequest::Getcwd { buf: rdi, count: rsi })
    } else if rax == 0x39 {
        Some(SyscallRequest::Fork)
    } else if rax == 0x3b {
        Some(SyscallRequest::Execve { path: rdi, args: rsi, envvars: rdx })
    } else if rax == 0x3c {
        Some(SyscallRequest::Getpid)
    } else if rax == 0x3d {
        Some(SyscallRequest::Getppid)
    } else if rax == 0x3e {
        Some(SyscallRequest::Getpgid)
    } else if rax == 0x12c {
        Some(SyscallRequest::TcbSet { fs_base: rdi })
    } else {
        None
    }
}

/// The number each call is made under.
pub open spec fn syscall_number(q: SyscallRequest) -> u64 {
    match q {
        SyscallRequest::Write { .. } => 0x0,
        SyscallRequest::Read { .. } => 0x1,
        SyscallRequest::Open { .. } => 0x2,
        SyscallRequest::Close { .. } => 0x3,
        SyscallRequest::Ioctl { .. } => 0x4,
        SyscallRequest::Stat { .. } => 0x5,
        SyscallRequest::Dup { .. } => 0x6,
        SyscallRequest::Fcntl { .. } => 0x7,
        SyscallRequest::Seek { .. } => 0x8,
        SyscallRequest::Mmap { .. } => 0x9,
        SyscallRequest::Pipe { .. } => 0xa,
        SyscallRequest::Fstat { .. } => 0xb,
        SyscallRequest::Exit { .. } => 0xc,
        SyscallRequest::Poll { .. } => 0xd,
        SyscallRequest::Sigaction { .. } => 0x10,
        SyscallRequest::Sigprocmask { .. } => 0x11,
        SyscallRequest::Getcwd { .. } => 0x20,
        SyscallRequest::Fork => 0x39,
        SyscallRequest::Execve { .. } => 0x3b,
        SyscallRequest::Getpid => 0x3c,
        SyscallRequest::Getppid => 0x3d,
        SyscallRequest::Getpgid => 0x3e,
        SyscallRequest::TcbSet { .. } => 0x12c,
    }
}

/// The registers a program sets to make a call: its number in `rax`, then
/// its arguments in `rdi`, `rsi`, `rdx` (`r8` for the flags of `mmap`),
/// the unused ones 0.
pub open spec fn syscall_registers(q: SyscallRequest) -> (u64, u64, u64, u64, u64) {
    let n = syscall_number(q);
    match q {
        SyscallRequest::Write { fd, buf, count } => (n, fd, buf, count, 0),
        SyscallRequest::Read { fd, buf, count } => (n, fd, buf, count, 0),
        SyscallRequest::Open { path, flags } => (n, path, flags, 0, 0),
        SyscallRequest::Close { fd } => (n, fd, 0, 0, 0),
        SyscallRequest::Ioctl { fd, request, buf } => (n, fd, request, buf, 0),
        SyscallRequest::Stat { path, buf } => (n, path, buf, 0, 0),
        SyscallRequest::Dup { fd } => (n, fd, 0, 0, 0),
        SyscallRequest::Fcntl { fd, operation, param } => (n, fd, operation, param, 0),
        SyscallRequest::Seek { fd, offset, whence } => (n, fd, offset, whence, 0),
        SyscallRequest::Mmap { start, count, flags } => (n, start, count, 0, flags),
        SyscallRequest::Pipe { fds, flags } => (n, fds, flags, 0, 0),
        SyscallRequest::Fstat { fd, buf } => (n, fd, buf, 0, 0),
        SyscallRequest::Exit { code } => (n, code, 0, 0, 0),
        SyscallRequest::Poll { fds, nfds, timeout } => (n, fds, nfds, timeout, 0),
        SyscallRequest::Sigaction { signum, new_action, old_action } => (n, signum, new_action, old_action, 0),
        SyscallRequest::Sigprocmask { how, set, oldset } => (n, how, set, oldset, 0),
        SyscallRequest::Getcwd { buf, count } => (n, buf, count, 0, 0),
        SyscallRequest::Fork => (n, 0, 0, 0, 0),
        SyscallRequest::Execve { path, args, envvars } => (n, path, args, envvars, 0),
        SyscallRequest::Getpid => (n, 0, 0, 0, 0),
        SyscallRequest::Getppid => (n, 0, 0, 0, 0),
        SyscallRequest::Getpgid => (n, 0, 0, 0, 0),
        SyscallRequest::TcbSet { fs_base } => (n, fs_base, 0, 0, 0),
    }
}

/// A decoded call is the call of the number asked for: whatever the
/// registers, the request decoded from `rax` is made under number `rax`, so
/// two numbers never decode to the same kind of call.
pub proof fn lemma_decoded_call_has_its_number(rax: u64, rdi: u64, rsi: u64, rdx: u64, r8: u64)
    ensures
        spec_decode_syscall(rax, rdi, rsi, rdx, r8) matches Some(q) ==> syscall_number(q) == rax,
{
}

/// Every call decodes back from the registers a program sets to make it,
/// arguments included.
pub proof fn lemma_call_decodes_from_its_registers(q: SyscallRequest)
    ensures
        ({
            let (rax, rdi, rsi, rdx, r8) = syscall_registers(q);
            spec_decode_syscall(rax, rdi, rsi, rdx, r8) == Some(q)
        }),
{
}

/// Decode a system call from its registers. An unknown number gives `None`
/// (the kernel panics on it).
pub fn decode_syscall(rax: u64, rdi: u64, rsi: u64, rdx: u64, r10: u64, r8: u64, r9: u64) -> (r: Option<SyscallRequest>)
    ensures
        r == spec_decode_syscall(rax, rdi, rsi, rdx, r8),
        r matches Some(q) ==> syscall_number(q) == rax,
{
    if rax == 0x0 {
        Some(SyscallRequest::Write { fd: rdi, buf: rsi, count: rdx })
    } else if rax == 0x1 {
        Some(SyscallRequest::Read { fd: rdi, buf: rsi, count: rdx })
    } else if rax == 0x2 {
        Some(SyscallRequest::Open { path: rdi, flags: rsi })
    } else if rax == 0x3 {
        Some(SyscallRequest::Close { fd: rdi })
    } else if rax == 0x4 {
        Some(SyscallRequest::Ioctl { fd: rdi, request: rsi, buf: rdx })
    } else if rax == 0x5 {
        Some(SyscallRequest::Stat { path: rdi, buf: rsi })
    } else if rax == 0x6 {
        Some(SyscallRequest::Dup { fd: rdi })
    } else if rax == 0x7 {
        Some(SyscallRequest::Fcntl { fd: rdi, operation: rsi, param: rdx })
    } else if rax == 0x8 {
        Some(SyscallRequest::Seek { fd: rdi, offset: rsi, whence: rdx })
    } else if rax == 0x9 {
        Some(SyscallRequest::Mmap { start: rdi, count: rsi, flags: r8 })
    } else if rax == 0xa {
        Some(SyscallRequest::Pipe { fds: rdi, flags: rsi })
    } else if rax == 0xb {
        Some(SyscallRequest::Fstat { fd: rdi, buf: rsi })
    } else if rax == 0xc {
        Some(SyscallRequest::Exit { code: rdi })
    } else if rax == 0xd {
        Some(SyscallRequest::Poll { fds: rdi, nfds: rsi, timeout: rdx })
    } else if rax == 0x10 {
        Some(SyscallRequest::Sigaction { signum: rdi, new_action: rsi, old_action: rdx })
    } else if rax == 0x11 {
        Some(SyscallRequest::Sigprocmask { how: rdi, set: rsi, oldset: rdx })
    } else if rax == 0x20 {
        Some(SyscallRequest::Getcwd { buf: rdi, count: rsi })
    } else if rax == 0x39 {
        Some(SyscallRequest::Fork)
    } else if rax == 0x3b {
        Some(SyscallRequest::Execve { path: rdi, args: rsi, envvars: rdx })
    } else if rax == 0x3c {
        Some(SyscallRequest::Getpid)
    } else if rax == 0x3d {
        Some(SyscallRequest::Getppid)
    } else if rax == 0x3e {
        Some(SyscallRequest::Getpgid)
    } else if rax == 0x12c {
        Some(SyscallRequest::TcbSet { fs_base: rdi })
    } else {
        None
    }
}

impl SyscallRequest {
    /// Whether this kernel implements the request as given: an unknown
    /// `ioctl`, an `mmap` of some pages with flags other than anonymous
    /// memory, a `poll` of more than one descriptor, and descriptor flags
    /// that `fcntl` cannot set are not implemented.
    pub open spec fn spec_supported(self) -> bool {
        match self {
            SyscallRequest::Ioctl { request, .. } => exists|op: IoCtl| #[trigger] op.spec_number() == request,
            SyscallRequest::Mmap { count, flags, .. } => count == 0 || flags == ERROR_RETURN,
            SyscallRequest::Poll { nfds, .. } => nfds <= 1,
            SyscallRequest::Fcntl { operation, param, .. } =>
                FcntlOperation::spec_from_number(operation) == Some(FcntlOperation::SetFD)
                    ==> param & SETFD_UNSUPPORTED_FLAGS == 0,
            _ => true,
        }
    }

    pub fn supported(&self) -> (r: bool)
        ensures
            r == self.spec_supported(),
    {
        match *self {
            SyscallRequest::Ioctl { request, .. } => {
                match IoCtl::from_number(request) {
                    Some(_) => true,
                    None => false,
                }
            },
            SyscallRequest::Mmap { count, flags, .. } => count == 0 || flags == ERROR_RETURN,
            SyscallRequest::Poll { nfds, .. } => nfds <= 1,
            SyscallRequest::Fcntl { operation, param, .. } => {
                match FcntlOperation::from_number(operation) {
                    Some(FcntlOperation::SetFD) => setfd_flags_supported(param),
                    _ => true,
                }
            },
            _ => true,
        }
    }

    /// The answer to a request that needs nothing from memory, devices or
    /// files: `mmap` of nothing and `fcntl` or `seek` of an unknown kind
    /// are refused with `EINVAL`; `poll` of no descriptor, `getppid` and
    /// `getpgid` give 0. Other requests give `None`.
    pub open spec fn spec_immediate_result(self) -> Option<SyscallResult> {
        match self {
            SyscallRequest::Mmap { count, .. } =>
                if count == 0 { Some(SyscallResult { return_value: ERROR_RETURN, err_num: 22 }) } else { None },
            SyscallRequest::Poll { nfds, .. } =>
                if nfds == 0 { Some(SyscallResult { return_value: 0, err_num: 0 }) } else { None },
            SyscallRequest::Fcntl { operation, .. } =>
                if FcntlOperation::spec_from_number(operation) is None {
                    Some(SyscallResult { return_value: ERROR_RETURN, err_num: 22 })
                } else {
                    None
                },
            SyscallRequest::Seek { offset, whence, .. } =>
                if spec_seek_from(whence, offset) is None {
                    Some(SyscallResult { return_value: ERROR_RETURN, err_num: 22 })
                } else {
                    None
                },
            SyscallRequest::Getppid => Some(SyscallResult { return_value: 0, err_num: 0 }),
            SyscallRequest::Getpgid => Some(SyscallResult { return_value: 0, err_num: 0 }),
            _ => None,
        }
    }

    pub fn immediate_result(&self) -> (r: Option<SyscallResult>)
        ensures
            r == self.spec_immediate_result(),
    {
        match *self {
            SyscallRequest::Mmap { count, .. } => {
                if count == 0 { Some(SyscallResult::error(CanonicalError::Inval)) } else { None }
            },
            SyscallRequest::Poll { nfds, .. } => {
                if nfds == 0 { Some(SyscallResult::success(0)) } else { None }
            },
            SyscallRequest::Fcntl { operation, .. } => {
                match FcntlOperation::from_number(operation) {
                    None => Some(SyscallResult::error(CanonicalError::Inval)),
                    Some(_) => None,
                }
            },
            SyscallRequest::Seek { offset, whence, .. } => {
                match seek_from(whence, offset) {
                    None => Some(SyscallResult::error(CanonicalError::Inval)),
                    Some(_) => None,
                }
            },
            SyscallRequest::Getppid => Some(SyscallResult::success(0)),
            SyscallRequest::Getpgid => Some(SyscallResult::success(0)),
            _ => None,
        }
    }
}

/// The bytes `pipe` stores for its two new descriptors: each as a 32-bit
/// number, lowest byte first.
pub open spec fn pipe_fds_bytes(fd1: u64, fd2: u64) -> Seq<u8> {
    u32_bytes(fd1 as u32) + u32_bytes(fd2 as u32)
}

pub fn pipe_fd_bytes(fd1: u64, fd2: u64) -> (r: Vec<u8>)
    ensures
        r@ == pipe_fds_bytes(fd1, fd2),
{
    let mut v: Vec<u8> = Vec::new();
    push_u32(&mut v, fd1 as u32);
    push_u32(&mut v, fd2 as u32);
    v
}

} // verus!
