use std::collections::BTreeMap;
use venix::interrupts::io_apic::{
    check_apics_wf, check_isos_valid, find_io_apic, init_io_apics, legacy_routes, IoApic, LegacyRoute,
    RegisterWrite,
};
use venix::interrupts::{add_irq_handler, enable_gsi, init_handler_funcs, InterruptController};
use venix::interrupts::idt::handlers_for;
use venix::process::stack::plan_stack;
use venix::process::{AuxVector, FileDescriptor, Process, TaskState, TaskType};
use venix::memory::user_address_space::AddressSpace;
use venix::scheduler::elf_loader::{
    elf_bounds, loaded_elf, read_program, segment_copies, try_read_program, LoadError, ProgramHeaderInfo, SegmentCopy,
};
use venix::scheduler::process_waker::ProcessWaker;
use venix::scheduler::signal::{create_sigaction, parse_sigaction, HandlerType, SigAction};
use venix::scheduler::{exit, fork_current_process, get_futures_to_poll, init, kthread_start, next_task, poll_outcome};
use venix::sys::acpi::interrupts::{acpi_madt_interrupt_source_override, Polarity, TriggerMode};

fn iso(source: u8, gsi: u32, flags: u16) -> acpi_madt_interrupt_source_override {
    acpi_madt_interrupt_source_override { bus: 0, source, gsi, flags }
}

#[test]
fn io_apic_routes_and_unmasks() {
    let mut a = IoApic::new(0xFEC0_0000, 0, 0x0017_0020);
    assert_eq!(a.get_max_redirection_table_entries(), 0x17);
    assert!(a.contains_gsi(23));
    assert!(!a.contains_gsi(24));
    let (lo, hi) = a.map_interrupt(2, 1, TriggerMode::Level, Polarity::ActiveLow, 32);
    assert_eq!(lo, RegisterWrite { index: 0x14, value: 0x1_0000 + 0x8000 + 0x2000 + 32 });
    assert_eq!(hi, RegisterWrite { index: 0x15, value: 0x0100_0000 });
    assert_eq!(a.get_irq_for_gsi(2), Some(32));
    assert_eq!(a.get_irq_for_gsi(3), None);
    let (lo, hi) = a.enable_gsi(2, 0x1_A020, 0x0100_0000);
    assert_eq!(lo, RegisterWrite { index: 0x14, value: 0xA020 });
    assert_eq!(hi, RegisterWrite { index: 0x15, value: 0x0100_0000 });
}

#[test]
fn legacy_interrupts_routed_at_boot() {
    let isos = vec![iso(0, 2, 0), iso(9, 9, 0x000D)];
    assert!(check_isos_valid(&isos));
    assert!(!check_isos_valid(&vec![iso(1, 1, 0b10)]));
    let routes = legacy_routes(&isos);
    assert_eq!(routes.len(), 15);
    assert_eq!(routes[0], LegacyRoute { gsi: 2, source: 0, trigger: TriggerMode::Conforming, polarity: Polarity::Conforming });
    assert_eq!(routes[1], LegacyRoute { gsi: 9, source: 9, trigger: TriggerMode::Level, polarity: Polarity::ActiveHigh });
    assert_eq!(routes[2].gsi, 1);
    assert_eq!(routes[3].gsi, 3);
    let apics = vec![IoApic::new(0xFEC0_0000, 0, 0x0017_0020)];
    assert!(check_apics_wf(&apics));
    assert_eq!(find_io_apic(&apics, 30), None);
    let (io, writes) = init_io_apics(1, apics, &isos);
    assert_eq!(writes.len(), 30);
    assert_eq!(writes[0], (0, RegisterWrite { index: 0x14, value: 0x1_0000 + 32 }));
    assert_eq!(writes[1], (0, RegisterWrite { index: 0x15, value: 0x0100_0000 }));
    assert_eq!(writes[2], (0, RegisterWrite { index: 0x22, value: 0x1_0000 + 0x8000 + 41 }));
    assert_eq!(io.apics[0].gsi_to_irq.get(&2), Some(&32));
    assert_eq!(io.apics[0].gsi_to_irq.get(&1), Some(&33));
    assert_eq!(io.irq_to_gsi.get(&0), Some(&2));
    assert_eq!(io.irq_to_gsi.get(&2), None);

    let mut ctl = InterruptController { io_apics: io, handlers: init_handler_funcs() };
    let (vector, apic, lo, hi) = enable_gsi(&mut ctl, 9, 7, 0x1_8029, 0x0100_0000);
    assert_eq!((vector, apic), (41, 0));
    assert_eq!(lo, RegisterWrite { index: 0x22, value: 0x8029 });
    assert_eq!(hi.index, 0x23);
    assert_eq!(handlers_for(&ctl.handlers, 41), vec![7]);
    add_irq_handler(&mut ctl.handlers, 41, 8);
    assert_eq!(handlers_for(&ctl.handlers, 41), vec![7, 8]);
    assert_eq!(handlers_for(&ctl.handlers, 40), Vec::<u64>::new());
}

#[test]
fn descriptors_take_the_lowest_free_number() {
    let mut p = Process::new_kthread(0xA000, 0x20_0000, 8, 16);
    let fd = |d: u64| FileDescriptor { file_description: d, flags: 0 };
    assert_eq!(p.emplace_fd(fd(10)), 0);
    assert_eq!(p.emplace_fd(fd(11)), 1);
    assert_eq!(p.emplace_fd_at(fd(13), 3, false), 3);
    assert_eq!(p.emplace_fd(fd(12)), 2);
    assert_eq!(p.emplace_fd_at(fd(14), 1, true), 4);
    p.close_fd(1);
    assert_eq!(p.emplace_fd(fd(15)), 1);
    assert_eq!(p.get_file_descriptor(1), fd(15));
    assert_eq!(p.get_file_descriptor(4), fd(14));
    p.set_fd_flags(4, 2);
    assert_eq!(p.get_file_descriptor(4).flags, 2);
    assert_eq!(p.file_descriptors.keys().copied().collect::<Vec<u64>>(), vec![0, 1, 2, 3, 4]);
}

#[test]
fn signal_handlers_described_and_read_back() {
    let h = parse_sigaction(SigAction { sa_handler: 0x4000, sa_mask: 0x10, sa_flags: -1 });
    assert_eq!(h.handler, 0x4000);
    assert_eq!(h.handler_type, HandlerType::SigAction);
    assert_eq!(h.flags, 0xFFFF_FFFF_FFFF_FFFF);
    let a = create_sigaction(h);
    assert_eq!(a, SigAction { sa_handler: 0x4000, sa_mask: 0x10, sa_flags: -1 });
    assert_eq!(parse_sigaction(a), h);
    assert_eq!(parse_sigaction(SigAction { sa_handler: 1, sa_mask: 0x0F, sa_flags: 0 }).handler_type, HandlerType::Handler);

    let mut p = Process::new_kthread(0x1000, 0x10_0000, 8, 16);
    assert_eq!(p.get_current_signal_handler(2), None);
    p.install_signal_handler(2, h);
    assert_eq!(p.get_current_signal_handler(2), Some(h));
}

#[test]
fn initial_stack_layout() {
    let args = vec![String::from("init")];
    let envs = vec![String::from("A=1")];
    let auxvs = vec![AuxVector { auxv_type: 6, value: 4096 }];
    let plan = plan_stack(0x1000, &args, &envs, &auxvs);
    assert_eq!(plan.strings, vec![(0xFFC, b"A=1\0".to_vec()), (0xFF7, b"init\0".to_vec())]);
    assert_eq!(plan.rsp, 0xFB0);
    let mut image = Vec::new();
    for w in [1u64, 0xFF7, 0, 0xFFC, 0, 6, 4096] {
        image.extend_from_slice(&w.to_le_bytes());
    }
    image.extend_from_slice(&[0u8; 15]);
    assert_eq!(plan.image, image);

    let mut p = Process::new_kthread(0x1000, 0x10_0000, 8, 16);
    p.execve(args.clone(), envs.clone(), AddressSpace::new(0x5000));
    let plan2 = p.init_stack_and_start(0x1000);
    // execve leaves no auxiliary vector, so the pointer block is smaller
    assert_eq!(plan2.rsp, 0xFC0);
    assert_eq!(p.context.rsp, 0xFC0);
    assert_eq!(p.state, TaskState::Running);
}

fn elf_file() -> Vec<u8> {
    let mut f = vec![0u8; 120];
    f[0..4].copy_from_slice(&[0x7F, b'E', b'L', b'F']);
    f[4] = 2;
    f[5] = 1;
    f[6] = 1;
    f[16..18].copy_from_slice(&2u16.to_le_bytes());
    f[18..20].copy_from_slice(&0x3Eu16.to_le_bytes());
    f[20..24].copy_from_slice(&1u32.to_le_bytes());
    f[24..32].copy_from_slice(&0x40_1000u64.to_le_bytes());
    f[32..40].copy_from_slice(&64u64.to_le_bytes());
    f[52..54].copy_from_slice(&64u16.to_le_bytes());
    f[54..56].copy_from_slice(&56u16.to_le_bytes());
    f[56..58].copy_from_slice(&1u16.to_le_bytes());
    f[58..60].copy_from_slice(&64u16.to_le_bytes());
    f[64..68].copy_from_slice(&1u32.to_le_bytes());
    f[68..72].copy_from_slice(&5u32.to_le_bytes());
    f[72..80].copy_from_slice(&0u64.to_le_bytes());
    f[80..88].copy_from_slice(&0x40_0000u64.to_le_bytes());
    f[88..96].copy_from_slice(&0x40_0000u64.to_le_bytes());
    f[96..104].copy_from_slice(&120u64.to_le_bytes());
    f[104..112].copy_from_slice(&0x2000u64.to_le_bytes());
    f[112..120].copy_from_slice(&0x1000u64.to_le_bytes());
    f
}

#[test]
fn programs_read_through_xmas_elf() {
    assert!(matches!(read_program(b"#!/bin/sh\nexit 0\n"), Err(LoadError::NotElf)));
    let f = elf_file();
    let q = read_program(&f).unwrap();
    assert_eq!(q.header.entry, 0x40_1000);
    assert_eq!(q.header.file_type, 2);
    assert_eq!(q.header.ph_count, 1);
    assert_eq!(q.program_headers, vec![ProgramHeaderInfo {
        is_load: Some(true), virtual_addr: 0x40_0000, mem_size: 0x2000, file_size: 120, offset: 0,
    }]);
    assert_eq!(q.bounds, Some((0x40_0000, 0x40_2000)));
    assert_eq!(segment_copies(&q.program_headers, 2, 0).unwrap(),
        vec![SegmentCopy { dest: 0x40_0000, offset: 0, size: 120 }]);
    assert_eq!(segment_copies(&q.program_headers, 3, 0x1000_0000).unwrap(),
        vec![SegmentCopy { dest: 0x1040_0000, offset: 0, size: 120 }]);
    let e = loaded_elf(&q.header, 0);
    assert_eq!((e.entry, e.program_header, e.program_header_entry_count), (0x40_1000, 64, 1));
    let mut shared = q.header;
    shared.file_type = 3;
    assert_eq!(loaded_elf(&shared, 0x1000_0000).entry, 0x1040_1000);
}

#[test]
fn segments_of_unknown_type_refused() {
    let phs = vec![
        ProgramHeaderInfo { is_load: Some(false), virtual_addr: 0, mem_size: 0, file_size: 0, offset: 0 },
        ProgramHeaderInfo { is_load: None, virtual_addr: 0x1000, mem_size: 0x10, file_size: 0x10, offset: 0 },
    ];
    assert_eq!(segment_copies(&phs, 2, 0), Err(LoadError::BadProgramHeader));
    assert_eq!(elf_bounds(&phs), Some((0x1000, 0x1010)));
    assert_eq!(elf_bounds(&vec![phs[0]]), None);
}

#[test]
fn scheduler_round_robin() {
    let idle = Process::new_kthread(0x1000, 0x10_0000, 8, 16);
    let mut s = init(idle);
    let a = kthread_start(&mut s, Process::new_kthread(0xA000, 0x20_0000, 8, 16));
    let b = kthread_start(&mut s, Process::new_kthread(0xB000, 0x30_0000, 8, 16));
    assert_eq!((a, b), (1, 2));
    // b runs; next comes the one after it, wrapping past the idle thread to a
    let (ctx, pt) = next_task(&mut s);
    assert_eq!(ctx.rip, 0xA000);
    assert_eq!(pt, None);
    assert_eq!(s.running_process, Some(1));
    let (ctx, _) = next_task(&mut s);
    assert_eq!(ctx.rip, 0xB000);
    // a process waiting on a system call is passed over
    s.process_table[1].1.set_state(TaskState::Waiting { future: 77 });
    let (ctx, _) = next_task(&mut s);
    assert_eq!(ctx.rip, 0xB000);
    assert!(get_futures_to_poll(&s).is_empty());
    ProcessWaker::new(1).wake(&mut s);
    assert_eq!(get_futures_to_poll(&s), vec![(1, 77)]);
    poll_outcome(&mut s, 1, Some((5, 0)), 77);
    assert_eq!(s.process_table[1].1.state, TaskState::Running);
    assert_eq!(s.process_table[1].1.context.gprs.rax, 5);
    assert_eq!(s.running_process, Some(1));
    poll_outcome(&mut s, 2, None, 88);
    assert_eq!(s.process_table[2].1.state, TaskState::Waiting { future: 88 });
}

#[test]
fn fork_and_exit() {
    let idle = Process::new_kthread(0x1000, 0x10_0000, 8, 16);
    let mut s = init(idle);
    let mut p = Process::new_kthread(0xA000, 0x20_0000, 8, 16);
    p.emplace_fd(FileDescriptor { file_description: 4, flags: 0 });
    kthread_start(&mut s, p);
    let child = fork_current_process(&mut s, 0xC000, TaskType::Kernel);
    assert_eq!(child, 2);
    let c = &s.process_table[2].1;
    assert_eq!(c.context.gprs.rax, 0);
    assert_eq!(c.get_file_descriptor(0), FileDescriptor { file_description: 4, flags: 0 });
    assert!(exit(&mut s, 0).is_none());
    assert_eq!(s.process_table.len(), 2);
    assert_eq!(s.process_table[1].0, 2);
    // with nothing else runnable the idle thread runs
    s.process_table[1].1.set_state(TaskState::Setup);
    let (ctx, _) = next_task(&mut s);
    assert_eq!(ctx.rip, 0x1000);
    assert_eq!(s.running_process, Some(0));
}

#[test]
fn program_header_table_checked_before_reading() {
    let f = elf_file();
    let q = try_read_program(&f).unwrap().unwrap();
    assert!(q.header.is_64);
    assert_eq!(q.header.ph_count, 1);
    assert!(matches!(try_read_program(b"MZ\x90\x00"), Some(Err(LoadError::NotElf))));
    // A table of 100 entries of 56 bytes from offset 64 does not fit.
    let mut long = elf_file();
    long[56..58].copy_from_slice(&100u16.to_le_bytes());
    assert!(try_read_program(&long).is_none());
    // Entries shorter than a 64-bit program header do not fit either.
    let mut short = elf_file();
    short[54..56].copy_from_slice(&8u16.to_le_bytes());
    assert!(try_read_program(&short).is_none());
    // A table whose entries would not be aligned is refused as well.
    let mut skewed = elf_file();
    skewed[32..40].copy_from_slice(&60u64.to_le_bytes());
    assert!(try_read_program(&skewed).is_none());
}

#[test]
fn programs_read_wherever_the_bytes_lie() {
    for shift in 0..8 {
        let mut buf = vec![0u8; shift];
        buf.extend(elf_file());
        let q = try_read_program(&buf[shift..]).unwrap().unwrap();
        assert_eq!(q.header.entry, 0x40_1000);
        assert_eq!(q.program_headers.len(), 1);
        assert_eq!(read_program(&buf[shift..]).unwrap().bounds, Some((0x40_0000, 0x40_2000)));
    }
}

#[test]
fn forked_child_copies_the_parent() {
    let idle = Process::new_kthread(0x1000, 0x10_0000, 8, 16);
    let mut s = init(idle);
    let mut p = Process::new_kthread(0xA000, 0x20_0000, 8, 16);
    p.context.gprs.rax = 7;
    p.context.gprs.rbx = 9;
    p.context.rflags = 0x246;
    p.cwd = String::from("/home");
    kthread_start(&mut s, p);
    let parent = s.process_table[1].1.context;
    let child = fork_current_process(&mut s, 0xC000, TaskType::Kernel);
    let c = &s.process_table[2].1;
    assert_eq!(s.process_table[2].0, child);
    let mut expected = parent;
    expected.gprs.rax = 0;
    assert_eq!(c.context, expected);
    assert_eq!(c.context.gprs.rbx, 9);
    assert_eq!(c.cwd, "/home");
    assert_eq!(c.state, TaskState::Running);
}

#[test]
fn last_mapping_of_a_gsi_wins() {
    let mut a = IoApic::new(0xFEC0_0000, 0, 0x0017_0020);
    a.map_interrupt(4, 0, TriggerMode::Edge, Polarity::ActiveHigh, 33);
    a.map_interrupt(5, 0, TriggerMode::Edge, Polarity::ActiveHigh, 34);
    a.map_interrupt(4, 0, TriggerMode::Edge, Polarity::ActiveHigh, 40);
    assert_eq!(a.get_irq_for_gsi(4), Some(40));
    assert_eq!(a.get_irq_for_gsi(5), Some(34));
}

#[test]
fn program_without_entry_point_refused() {
    let mut f = elf_file();
    f[24..32].copy_from_slice(&0u64.to_le_bytes());
    assert!(matches!(read_program(&f), Err(LoadError::NoEntryPoint)));
    assert!(matches!(try_read_program(&f), Some(Err(LoadError::NoEntryPoint))));
}
