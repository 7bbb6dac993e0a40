use venix::process::{Process, FileDescriptor};
use venix::sys::ioctl::IoCtl;
use venix::sys::syscall::{
    decode_syscall, open_flags_supported, pipe_fd_bytes, seek_from, setfd_flags_supported, sigmask_how,
    sys_close, sys_dup, sys_fcntl, sys_sigprocmask, CanonicalError, FcntlOperation, PollEvents, PollFd,
    SigmaskHow, SyscallRequest, SyscallResult, ERROR_RETURN,
};
use venix::fs::fat::fat1216::SeekFrom;

fn kthread() -> Process {
    Process::new_kthread(0x1000, 0x10_0000, 8, 16)
}

#[test]
fn error_numbers_are_the_canonical_ones() {
    assert_eq!(CanonicalError::NoError.number(), 0);
    assert_eq!(CanonicalError::NoEnt.number(), 2);
    assert_eq!(CanonicalError::Io.number(), 5);
    assert_eq!(CanonicalError::Badf.number(), 9);
    assert_eq!(CanonicalError::Again.number(), 11);
    assert_eq!(CanonicalError::Access.number(), 13);
    assert_eq!(CanonicalError::Fault.number(), 14);
    assert_eq!(CanonicalError::NotDir.number(), 20);
    assert_eq!(CanonicalError::Inval.number(), 22);
    assert_eq!(CanonicalError::SPipe.number(), 29);
    assert_eq!(CanonicalError::Range.number(), 34);
}

#[test]
fn results_of_success_and_failure() {
    assert_eq!(SyscallResult::success(7), SyscallResult { return_value: 7, err_num: 0 });
    assert_eq!(SyscallResult::error(CanonicalError::Badf),
        SyscallResult { return_value: 0xFFFF_FFFF_FFFF_FFFF, err_num: 9 });
    assert_eq!(SyscallResult::from_result(Ok(3)), SyscallResult { return_value: 3, err_num: 0 });
    assert_eq!(SyscallResult::from_result(Err(CanonicalError::SPipe)),
        SyscallResult { return_value: ERROR_RETURN, err_num: 29 });
}

#[test]
fn fcntl_operations_by_number() {
    assert_eq!(FcntlOperation::from_number(1), Some(FcntlOperation::DupFD));
    assert_eq!(FcntlOperation::from_number(2), None);
    assert_eq!(FcntlOperation::from_number(3), Some(FcntlOperation::GetFD));
    assert_eq!(FcntlOperation::from_number(4), Some(FcntlOperation::SetFD));
    assert_eq!(FcntlOperation::from_number(5), Some(FcntlOperation::GetFlags));
    assert_eq!(FcntlOperation::from_number(6), None);
}

#[test]
fn pollfd_written_then_read_back() {
    let p = PollFd { fd: -3, events: PollEvents { bits: 0x0041 }, revents: PollEvents { bits: 0x0400 } };
    let bytes = p.to_bytes();
    assert_eq!(bytes, vec![0xFD, 0xFF, 0xFF, 0xFF, 0x41, 0x00, 0x00, 0x04]);
    assert_eq!(PollFd::from_bytes(&bytes), p);
}

#[test]
fn poll_events_contain() {
    let e = PollEvents { bits: 0x03 };
    assert!(e.contains(PollEvents { bits: 0x01 }));
    assert!(e.contains(PollEvents { bits: 0x03 }));
    assert!(!e.contains(PollEvents { bits: 0x04 }));
}

#[test]
fn seek_origins() {
    assert_eq!(seek_from(1, 5), Some(SeekFrom::Current(5)));
    assert_eq!(seek_from(2, 0xFFFF_FFFF_FFFF_FFFF), Some(SeekFrom::End(-1)));
    assert_eq!(seek_from(3, 10), Some(SeekFrom::Start(10)));
    assert_eq!(seek_from(0, 10), None);
    assert_eq!(seek_from(4, 10), None);
}

#[test]
fn open_and_setfd_flags() {
    assert!(open_flags_supported(0));
    assert!(open_flags_supported(0x2 | 0x80 | 0x200 | 0x10));
    assert!(!open_flags_supported(0x8));
    assert!(!open_flags_supported(0x1000));
    assert!(setfd_flags_supported(0x80 | 0x7));
    assert!(!setfd_flags_supported(0x8));
}

#[test]
fn sigprocmask_changes_the_mask() {
    let mut p = kthread();
    assert_eq!(sigmask_how(1), Some(SigmaskHow::Block));
    assert_eq!(sigmask_how(4), None);
    assert_eq!(sys_sigprocmask(&mut p, 1, 0b1010), SyscallResult { return_value: 0, err_num: 0 });
    assert_eq!(p.sigmask, 0b1010);
    assert_eq!(sys_sigprocmask(&mut p, 2, 0b0010), SyscallResult { return_value: 0, err_num: 0 });
    assert_eq!(p.sigmask, 0b1000);
    assert_eq!(sys_sigprocmask(&mut p, 3, 0b0101), SyscallResult { return_value: 0, err_num: 0 });
    assert_eq!(p.sigmask, 0b0101);
    assert_eq!(sys_sigprocmask(&mut p, 0, 0xFF), SyscallResult { return_value: ERROR_RETURN, err_num: 22 });
    assert_eq!(p.sigmask, 0b0101);
}

#[test]
fn close_dup_and_fcntl_on_descriptors() {
    let mut p = kthread();
    let a = p.emplace_fd(FileDescriptor { file_description: 100, flags: 1 });
    let b = p.emplace_fd(FileDescriptor { file_description: 200, flags: 2 });
    assert_eq!((a, b), (0, 1));
    let d = sys_dup(&mut p, 0);
    assert_eq!(d, SyscallResult { return_value: 2, err_num: 0 });
    assert_eq!(p.get_file_descriptor(2), FileDescriptor { file_description: 100, flags: 1 });
    assert_eq!(sys_close(&mut p, 1), SyscallResult { return_value: 0, err_num: 0 });
    // the lowest free number is taken again
    assert_eq!(sys_dup(&mut p, 2), SyscallResult { return_value: 1, err_num: 0 });
    // duplicate from 5 on
    assert_eq!(sys_fcntl(&mut p, 0, 1, 5), SyscallResult { return_value: 5, err_num: 0 });
    assert_eq!(sys_fcntl(&mut p, 0, 3, 0), SyscallResult { return_value: 1, err_num: 0 });
    assert_eq!(sys_fcntl(&mut p, 0, 4, 0x80), SyscallResult { return_value: 0, err_num: 0 });
    assert_eq!(sys_fcntl(&mut p, 0, 5, 0), SyscallResult { return_value: 0x80, err_num: 0 });
    assert_eq!(sys_fcntl(&mut p, 0, 9, 0), SyscallResult { return_value: ERROR_RETURN, err_num: 22 });
}

#[test]
fn requests_decoded_from_registers() {
    assert_eq!(decode_syscall(0, 1, 2, 3, 4, 5, 6), Some(SyscallRequest::Write { fd: 1, buf: 2, count: 3 }));
    assert_eq!(decode_syscall(0x09, 0, 8192, 0, 0, ERROR_RETURN, 0),
        Some(SyscallRequest::Mmap { start: 0, count: 8192, flags: ERROR_RETURN }));
    assert_eq!(decode_syscall(0x3c, 0, 0, 0, 0, 0, 0), Some(SyscallRequest::Getpid));
    assert_eq!(decode_syscall(0x12c, 0x7000, 0, 0, 0, 0, 0), Some(SyscallRequest::TcbSet { fs_base: 0x7000 }));
    assert_eq!(decode_syscall(0x0e, 0, 0, 0, 0, 0, 0), None);
    assert_eq!(decode_syscall(0x3f, 0, 0, 0, 0, 0, 0), None);
}

#[test]
fn requests_supported_and_answered_at_once() {
    assert!(!SyscallRequest::Ioctl { fd: 0, request: 0x1234, buf: 0 }.supported());
    assert!(SyscallRequest::Ioctl { fd: 0, request: 0x5413, buf: 0 }.supported());
    assert!(!SyscallRequest::Mmap { start: 0, count: 4096, flags: 0 }.supported());
    assert!(SyscallRequest::Mmap { start: 0, count: 0, flags: 0 }.supported());
    assert!(!SyscallRequest::Poll { fds: 0, nfds: 2, timeout: 0 }.supported());
    assert!(!SyscallRequest::Fcntl { fd: 0, operation: 4, param: 0x8 }.supported());
    assert_eq!(SyscallRequest::Mmap { start: 0, count: 0, flags: 0 }.immediate_result(),
        Some(SyscallResult { return_value: ERROR_RETURN, err_num: 22 }));
    assert_eq!(SyscallRequest::Poll { fds: 0, nfds: 0, timeout: 0 }.immediate_result(),
        Some(SyscallResult { return_value: 0, err_num: 0 }));
    assert_eq!(SyscallRequest::Seek { fd: 0, offset: 0, whence: 7 }.immediate_result(),
        Some(SyscallResult { return_value: ERROR_RETURN, err_num: 22 }));
    assert_eq!(SyscallRequest::Getppid.immediate_result(), Some(SyscallResult { return_value: 0, err_num: 0 }));
    assert_eq!(SyscallRequest::Getpid.immediate_result(), None);
}

#[test]
fn pipe_descriptors_as_bytes() {
    assert_eq!(pipe_fd_bytes(3, 0x1_0000_0104), vec![3, 0, 0, 0, 4, 1, 0, 0]);
}

#[test]
fn ioctl_numbers() {
    assert_eq!(IoCtl::from_number(0x5401), Some(IoCtl::TCGETS));
    assert_eq!(IoCtl::from_number(0x5410), Some(IoCtl::TIOCSPGRP));
    assert_eq!(IoCtl::from_number(0x5400), None);
    assert_eq!(IoCtl::TIOCGWINSZ.number(), 0x5413);
}
