use rd::arch_structs::{decode_program, encode_program, sock_fprog};
use rd::byte_codec::{push_le_u16, push_le_u32, push_le_u64, read_le_u16, read_le_u32, read_le_u64};
use rd::gdb_register::{find_user_register, read_register, DREG_EIP, DREG_RIP};
use rd::kernel_abi::{
    is_seccomp_syscall, is_sigreturn, sock_filter, syscall_number, syscall_number_for_execve,
    word_size, KnownSyscall, SupportedArch,
};
use rd::monitored_shared_memory::{same_bytes, MonitoredSharedMemory};
use rd::record_task::{RecordTask, SyscallEvent, TaskUid};
use rd::registers::{to_signed32, to_signed64, to_unsigned32, to_unsigned64, Registers};
use rd::trace_task_event::{
    TraceTaskEvent, TraceTaskEventClone, TraceTaskEventExec, TraceTaskEventExit,
    TraceTaskEventType, WaitStatus,
};
use rd::tracee_memory::TraceeMemory;

#[test]
fn integers_are_little_endian() {
    let mut out = Vec::new();
    push_le_u16(&mut out, 0x1234);
    push_le_u32(&mut out, 0x89ab_cdef);
    push_le_u64(&mut out, 0x0102_0304_0506_0708);
    assert_eq!(out, vec![0x34, 0x12, 0xef, 0xcd, 0xab, 0x89, 8, 7, 6, 5, 4, 3, 2, 1]);
    assert_eq!(read_le_u16(&out, 0), 0x1234);
    assert_eq!(read_le_u32(&out, 2), 0x89ab_cdef);
    assert_eq!(read_le_u64(&out, 6), 0x0102_0304_0506_0708);
    assert_eq!(read_le_u16(&out, 1), 0xef12);
}

#[test]
fn signed_and_unsigned_readings_agree() {
    assert_eq!(to_signed64(u64::MAX), -1);
    assert_eq!(to_signed64(0x8000_0000_0000_0000), i64::MIN);
    assert_eq!(to_signed64(5), 5);
    assert_eq!(to_unsigned64(-1), u64::MAX);
    assert_eq!(to_unsigned64(i64::MIN), 0x8000_0000_0000_0000);
    assert_eq!(to_signed32(0xffff_fffe), -2);
    assert_eq!(to_signed32(0x1_0000_0003), 3);
    assert_eq!(to_signed32(0x7fff_ffff), 0x7fff_ffff);
    assert_eq!(to_unsigned32(-1), 0xffff_ffff);
    assert_eq!(to_unsigned32(i32::MIN), 0x8000_0000);
    assert_eq!(to_unsigned32(7), 7);
}

#[test]
fn syscall_arguments_follow_the_calling_convention() {
    let mut r = Registers::new(SupportedArch::X64);
    for i in 1..=6 {
        r.set_arg(i, 0x1_0000_0000 + i as u64);
    }
    assert_eq!((r.di, r.si, r.dx), (0x1_0000_0001, 0x1_0000_0002, 0x1_0000_0003));
    assert_eq!((r.r10, r.r8, r.r9), (0x1_0000_0004, 0x1_0000_0005, 0x1_0000_0006));
    assert_eq!((r.arg1(), r.arg2(), r.arg3()), (0x1_0000_0001, 0x1_0000_0002, 0x1_0000_0003));
    let mut r = Registers::new(SupportedArch::X86);
    for i in 1..=6 {
        r.set_arg(i, 0x1_0000_0000 + i as u64);
    }
    assert_eq!((r.bx, r.cx, r.dx, r.si, r.di, r.bp), (1, 2, 3, 4, 5, 6));
    assert_eq!(r.arg(4), 4);
    r.set_arg1_signed_minus_one();
    assert_eq!(r.arg1(), 0xffff_ffff);
    r.set_syscall_result_signed(-38);
    assert_eq!(r.ax, 0xffff_ffda);
    assert_eq!(r.syscall_result_signed(), -38);
    assert!(r.syscall_failed());
    r.set_syscall_result(0xffff_f000);
    assert_eq!(r.syscall_result_signed(), -4096);
    assert!(!r.syscall_failed());
    r.orig_ax = 0xffff_fffe;
    assert_eq!(r.original_syscallno(), -2);
    assert_eq!(r.arch(), SupportedArch::X86);
    let mut r = Registers::new(SupportedArch::X64);
    r.orig_ax = 0xffff_fffe;
    assert_eq!(r.original_syscallno(), 0xffff_fffe);
    r.sp = 5;
    r.ip = 6;
    assert_eq!((r.sp(), r.ip()), (5, 6));
}

#[test]
fn registers_convert_between_architectures() {
    let mut r = Registers::new(SupportedArch::X64);
    r.ax = 0x1_2345_6789;
    r.bx = 0xffff_ffff_0000_0010;
    let x86 = r.converted(SupportedArch::X86);
    assert_eq!(x86.arch, SupportedArch::X86);
    assert_eq!(x86.ax, 0x2345_6789);
    assert_eq!(x86.bx, 0x10);
    assert_eq!(r.converted(SupportedArch::X64), r);
    let back = x86.converted(SupportedArch::X64);
    assert_eq!(back.arch, SupportedArch::X64);
    assert_eq!(back.ax, 0x2345_6789);
}

#[test]
fn kernel_numbers_depend_on_the_architecture() {
    assert_eq!(word_size(SupportedArch::X86), 4);
    assert_eq!(word_size(SupportedArch::X64), 8);
    assert_eq!(syscall_number(KnownSyscall::Prctl, SupportedArch::X64), 157);
    assert_eq!(syscall_number(KnownSyscall::Prctl, SupportedArch::X86), 172);
    assert_eq!(syscall_number(KnownSyscall::Read, SupportedArch::X64), 0);
    assert_eq!(syscall_number(KnownSyscall::Read, SupportedArch::X86), 3);
    assert_eq!(syscall_number_for_execve(SupportedArch::X64), 59);
    assert_eq!(syscall_number_for_execve(SupportedArch::X86), 11);
    assert!(is_seccomp_syscall(317, SupportedArch::X64));
    assert!(is_seccomp_syscall(354, SupportedArch::X86));
    assert!(!is_seccomp_syscall(354, SupportedArch::X64));
    assert!(is_sigreturn(15, SupportedArch::X64));
    assert!(is_sigreturn(119, SupportedArch::X86));
    assert!(is_sigreturn(173, SupportedArch::X86));
    assert!(!is_sigreturn(-1, SupportedArch::X64));
    assert!(!is_sigreturn(119, SupportedArch::X64));
}

#[test]
fn memory_reads_and_writes_touch_mapped_addresses_only() {
    let mut mem = TraceeMemory::new();
    assert!(!mem.is_mapped_at(0x1000));
    mem.map_zeroed(0x1000, 8);
    assert!(mem.is_mapped(0x1000, 8));
    assert!(!mem.is_mapped(0x1000, 9));
    assert!(!mem.is_mapped(0xfff, 2));
    assert!(mem.is_mapped(0x5000, 0));
    assert!(mem.write_bytes(0x1002, &vec![1, 2, 3]));
    assert_eq!(mem.read_bytes(0x1000, 8), Some(vec![0, 0, 1, 2, 3, 0, 0, 0]));
    assert_eq!(mem.read_byte(0x1003), Some(2));
    assert_eq!(mem.read_byte(0x1008), None);
    assert_eq!(mem.read_bytes(0x1004, 5), None);
    // A write that does not fit writes nothing.
    assert!(!mem.write_bytes(0x1006, &vec![7, 7, 7]));
    assert_eq!(mem.read_bytes(0x1006, 2), Some(vec![0, 0]));
    assert_eq!(mem.read_bytes_fallible(0x1002, 100), vec![1, 2, 3, 0, 0, 0]);
    assert_eq!(mem.read_bytes_fallible(0x2000, 100), Vec::<u8>::new());
    // The top of the address space.
    mem.map_zeroed(u64::MAX - 1, 2);
    assert!(mem.is_mapped(u64::MAX - 1, 2));
    assert!(!mem.is_mapped(u64::MAX - 1, 3));
    assert_eq!(mem.read_bytes_fallible(u64::MAX, 4), vec![0]);
    // Mapping again zeroes.
    mem.map_zeroed(0x1002, 1);
    assert_eq!(mem.read_bytes(0x1002, 2), Some(vec![0, 2]));
}

#[test]
fn filter_programs_are_laid_out_as_the_kernel_reads_them() {
    let prog = vec![
        sock_filter { code: 0x0020, jt: 0, jf: 0, k: 4 },
        sock_filter { code: 0x0015, jt: 1, jf: 2, k: 0xc000_003e },
    ];
    let bytes = encode_program(&prog);
    assert_eq!(
        bytes,
        vec![0x20, 0, 0, 0, 4, 0, 0, 0, 0x15, 0, 1, 2, 0x3e, 0, 0, 0xc0]
    );
    assert_eq!(decode_program(&bytes, 2), prog);
    let p = sock_fprog { len: 2, filter: 0x7fff_1234_5678 };
    let b = p.encode(SupportedArch::X64);
    assert_eq!(b, vec![2, 0, 0, 0, 0, 0, 0, 0, 0x78, 0x56, 0x34, 0x12, 0xff, 0x7f, 0, 0]);
    assert_eq!(sock_fprog::decode(SupportedArch::X64, &b), p);
    assert_eq!(sock_fprog::size_of(SupportedArch::X64), 16);
    let p = sock_fprog { len: 0x0102, filter: 0x1234_5678 };
    let b = p.encode(SupportedArch::X86);
    assert_eq!(b, vec![2, 1, 0, 0, 0x78, 0x56, 0x34, 0x12]);
    assert_eq!(sock_fprog::decode(SupportedArch::X86, &b), p);
    assert_eq!(sock_fprog::size_of(SupportedArch::X86), 8);
}

fn task() -> RecordTask {
    let mut mem = TraceeMemory::new();
    mem.map_zeroed(0x4000, 0x100);
    RecordTask {
        tuid: TaskUid { tid: 7, serial: 1 },
        regs: Registers::new(SupportedArch::X64),
        mem,
        scratch_ptr: 0,
        usable_scratch_size: 0,
        desched_rec: 0,
        prctl_seccomp_status: 0,
        tsc_mode: 1,
        dumpable: true,
        done_initial_exec: true,
        syscall_event: SyscallEvent { number: 0, arch: SupportedArch::X64 },
        trace: Vec::new(),
    }
}

#[test]
fn trace_records_memory() {
    let mut t = task();
    assert!(t.mem.write_bytes(0x4000, &vec![1, 2, 3, 4]));
    t.record_remote(0x4001, 2);
    t.record_local(0x9000, vec![9]);
    assert_eq!(t.trace.len(), 2);
    assert_eq!((t.trace[0].addr, t.trace[0].data.clone()), (0x4001, vec![2, 3]));
    assert_eq!((t.trace[1].addr, t.trace[1].data.clone()), (0x9000, vec![9]));
    assert_eq!(t.arch(), SupportedArch::X64);
}

#[test]
fn shared_memory_of_dconf_is_monitored() {
    let real = vec![1, 2, 3, 4];
    assert!(MonitoredSharedMemory::maybe_monitor(&b"/run/user/1000/dconf/user".to_vec(), real.clone()).is_some());
    assert!(MonitoredSharedMemory::maybe_monitor(&b"/dconf/user".to_vec(), real.clone()).is_some());
    assert!(MonitoredSharedMemory::maybe_monitor(&b"/run/user/1000/dconf/users".to_vec(), real.clone()).is_none());
    assert!(MonitoredSharedMemory::maybe_monitor(&b"dconf/user".to_vec(), real.clone()).is_none());
    assert!(MonitoredSharedMemory::maybe_monitor(&Vec::new(), real.clone()).is_none());
    let m = MonitoredSharedMemory::maybe_monitor(&b"/dconf/user".to_vec(), real.clone()).unwrap();
    assert_eq!(m.real_mem, real);
    assert_eq!(m.subrange(1, 2).real_mem, vec![2, 3]);
    assert_eq!(m.subrange(4, 0).real_mem, Vec::<u8>::new());
    assert!(same_bytes(&vec![1, 2], &vec![1, 2]));
    assert!(!same_bytes(&vec![1, 2], &vec![1, 3]));
    assert!(!same_bytes(&vec![1, 2], &vec![1]));
}

#[test]
fn shadow_follows_the_real_memory() {
    let mut t = task();
    let mut m = MonitoredSharedMemory::new(vec![0, 0, 0, 0]);
    // Nothing changed: nothing is recorded.
    assert!(!m.check_for_changes(&mut t, 0x4010, &vec![0, 0, 0, 0]));
    assert!(t.trace.is_empty());
    // The other process wrote: the shadow is brought up to date.
    assert!(m.check_for_changes(&mut t, 0x4010, &vec![0, 5, 0, 6]));
    assert_eq!(t.mem.read_bytes(0x4010, 4), Some(vec![0, 5, 0, 6]));
    assert_eq!(m.real_mem, vec![0, 5, 0, 6]);
    assert_eq!(t.trace.len(), 1);
    assert_eq!((t.trace[0].addr, t.trace[0].data.clone()), (0x4010, vec![0, 5, 0, 6]));
    assert!(!m.check_for_changes(&mut t, 0x4010, &vec![0, 5, 0, 6]));
    assert_eq!(t.trace.len(), 1);
    let mut all = vec![MonitoredSharedMemory::new(Vec::new()), MonitoredSharedMemory::new(Vec::new())];
    let changed = MonitoredSharedMemory::check_all(
        &mut t,
        &mut all,
        &vec![0x4010, 0x4020],
        &vec![vec![0, 5, 0, 6], vec![7, 7]],
    );
    assert_eq!(changed, 1);
    assert_eq!(t.mem.read_bytes(0x4020, 2), Some(vec![7, 7]));
    assert_eq!(all[1].real_mem, vec![7, 7]);
    assert_eq!(t.trace.len(), 2);
}

#[test]
fn task_events_give_what_they_hold() {
    let clone = TraceTaskEvent {
        type_: TraceTaskEventType::Clone(TraceTaskEventClone {
            parent_tid_: 10,
            own_ns_tid_: 11,
            clone_flags_: 0x11,
        }),
        tid_: 12,
    };
    assert_eq!(clone.tid(), 12);
    assert_eq!(clone.clone_type().parent_tid(), 10);
    assert_eq!(clone.clone_type().own_ns_tid(), 11);
    assert_eq!(clone.clone_type().clone_flags(), 0x11);
    assert!(matches!(clone.event_type(), TraceTaskEventType::Clone(_)));
    let exec = TraceTaskEvent {
        type_: TraceTaskEventType::Exec(TraceTaskEventExec {
            file_name_: b"/bin/true".to_vec(),
            cmd_line_: vec![b"true".to_vec()],
            exe_base_: 0x40_0000,
        }),
        tid_: 12,
    };
    assert_eq!(exec.exec_type().file_name(), &b"/bin/true".to_vec());
    assert_eq!(exec.exec_type().cmd_line().len(), 1);
    assert_eq!(exec.exec_type().exe_base(), 0x40_0000);
    let exit = TraceTaskEvent {
        type_: TraceTaskEventType::Exit(TraceTaskEventExit {
            exit_status_: WaitStatus { status: 0x0100 },
        }),
        tid_: 12,
    };
    assert_eq!(exit.exit_type().exit_status(), WaitStatus { status: 0x0100 });
}

#[test]
fn monitored_mappings_are_looked_at_in_order() {
    let mut t = task();
    assert!(t.mem.write_bytes(0x4000, &vec![1, 1]));
    let mut all = vec![
        MonitoredSharedMemory::new(Vec::new()),
        MonitoredSharedMemory::new(Vec::new()),
        MonitoredSharedMemory::new(Vec::new()),
    ];
    // The second and the third lie on the same memory: the third sees what
    // the second brought up to date.
    let changed = MonitoredSharedMemory::check_all(
        &mut t,
        &mut all,
        &vec![0x4000, 0x4010, 0x4010],
        &vec![vec![1, 1], vec![2, 2], vec![2, 2]],
    );
    assert_eq!(changed, 1);
    assert_eq!(t.trace.len(), 1);
    assert_eq!((t.trace[0].addr, t.trace[0].data.clone()), (0x4010, vec![2, 2]));
    assert_eq!(all[0].real_mem, vec![1, 1]);
    assert_eq!(all[2].real_mem, vec![2, 2]);
}

#[test]
fn user_registers_are_read_in_the_width_of_the_architecture() {
    let mut regs = Registers::new(SupportedArch::X64);
    regs.ip = 0x1122_3344_5566_7788;
    let found = find_user_register(&regs, DREG_RIP).unwrap();
    assert_eq!((found.value, found.size), (0x1122_3344_5566_7788, 8));
    assert_eq!(
        read_register(&regs, DREG_RIP),
        Some(vec![0x88, 0x77, 0x66, 0x55, 0x44, 0x33, 0x22, 0x11])
    );
    assert!(read_register(&regs, 1000).is_none());
    let mut regs = Registers::new(SupportedArch::X86);
    regs.ip = 0x5566_7788;
    assert_eq!(read_register(&regs, DREG_EIP), Some(vec![0x88, 0x77, 0x66, 0x55]));
    assert!(find_user_register(&regs, 1000).is_none());
}
