use rd::kernel_abi::{sock_filter, SupportedArch};
use rd::record_task::{RecordTask, SyscallEvent, TaskUid};
use rd::registers::Registers;
use rd::seccomp_filter_rewriter::{
    all_returns_constant, read_requested_program, RdPageSyscall, RewriteError,
    SeccompFilterRewriter, SeccompInstall,
};
use rd::tracee_memory::TraceeMemory;

fn task_with_filter(code: &[sock_filter]) -> RecordTask {
    let mut mem = TraceeMemory::new();
    mem.map_zeroed(0x1000, 0x1000);
    let mut bytes: Vec<u8> = Vec::new();
    for f in code {
        bytes.extend_from_slice(&f.code.to_le_bytes());
        bytes.push(f.jt);
        bytes.push(f.jf);
        bytes.extend_from_slice(&f.k.to_le_bytes());
    }
    assert!(mem.write_bytes(0x1100, &bytes));
    let mut prog: Vec<u8> = Vec::new();
    prog.extend_from_slice(&(code.len() as u16).to_le_bytes());
    prog.extend_from_slice(&[0u8; 6]);
    prog.extend_from_slice(&0x1100u64.to_le_bytes());
    assert!(mem.write_bytes(0x1000, &prog));
    let mut regs = Registers::new(SupportedArch::X64);
    regs.set_arg(3, 0x1000);
    RecordTask {
        tuid: TaskUid { tid: 1, serial: 1 },
        regs,
        mem,
        scratch_ptr: 0,
        usable_scratch_size: 0,
        desched_rec: 0,
        prctl_seccomp_status: 0,
        tsc_mode: 1,
        dumpable: true,
        done_initial_exec: true,
        syscall_event: SyscallEvent { number: 157, arch: SupportedArch::X64 },
        trace: Vec::new(),
    }
}

#[test]
fn rewrite_of_single_errno_return() {
    let t = task_with_filter(&[sock_filter { code: 0x06, jt: 0, jf: 0, k: 0x30000 }]);
    let mut rewriter = SeccompFilterRewriter::new();
    let plan = rewriter.install_patched_seccomp_filter(&t, &Vec::new());
    match plan {
        Ok(SeccompInstall::Install { filters }) => {
            assert_eq!(filters.len(), 1);
            assert_eq!(filters[0].code, 0x06);
            assert_eq!(filters[0].k, 0x7ff0_0000 | 0x100);
        }
        _ => panic!("the filter is readable and well formed"),
    }
    assert_eq!(rewriter.index_to_result(), vec![0x30000]);
    let mut result: u32 = 0;
    assert!(rewriter.map_filter_data_to_real_result(0x100, &mut result));
    assert_eq!(result, 0x30000);
}

#[test]
fn exit_event_value_is_not_a_verdict() {
    let rewriter = SeccompFilterRewriter::new();
    let mut result: u32 = 7;
    assert!(!rewriter.map_filter_data_to_real_result(0xff, &mut result));
    assert_eq!(result, 7);
}

#[test]
fn register_return_is_told_apart_before_a_filter_is_rewritten() {
    // RET A: the verdict is taken from the accumulator.
    let from_register = vec![
        sock_filter { code: 0x06, jt: 0, jf: 0, k: 0x7fff_0000 },
        sock_filter { code: 0x16, jt: 0, jf: 0, k: 0 },
    ];
    assert!(!all_returns_constant(&from_register));
    let t = task_with_filter(&from_register);
    assert_eq!(read_requested_program(&t), Some(from_register));
    // RET X.
    assert!(!all_returns_constant(&vec![sock_filter { code: 0x0e, jt: 0, jf: 0, k: 0 }]));
    // RET K, and code without a RET.
    assert!(all_returns_constant(&vec![
        sock_filter { code: 0x20, jt: 0, jf: 0, k: 0 },
        sock_filter { code: 0x06, jt: 0, jf: 0, k: 0x30000 },
    ]));
    assert!(all_returns_constant(&Vec::new()));
}

#[test]
fn unreadable_program_is_passed_through() {
    let mut t = task_with_filter(&[]);
    t.regs.set_arg(3, 0x9000);
    let mut rewriter = SeccompFilterRewriter::new();
    let plan = rewriter.install_patched_seccomp_filter(&t, &Vec::new());
    assert!(matches!(plan, Ok(SeccompInstall::PassThrough)));
}

#[test]
fn privileged_callsites_come_first() {
    let t = task_with_filter(&[
        sock_filter { code: 0x06, jt: 0, jf: 0, k: 0x7fff_0000 },
        sock_filter { code: 0x06, jt: 0, jf: 0, k: 0x0005_0001 },
        sock_filter { code: 0x06, jt: 0, jf: 0, k: 0x0005_0001 },
    ]);
    let mut rewriter = SeccompFilterRewriter::new();
    let stubs = vec![
        RdPageSyscall { privileged: false, enabled: true, exit_point: 0x7000_0002 },
        RdPageSyscall { privileged: true, enabled: false, exit_point: 0x7000_0030 },
        RdPageSyscall { privileged: true, enabled: true, exit_point: 0x7000_000b },
    ];
    let plan = rewriter.install_patched_seccomp_filter(&t, &stubs);
    match plan {
        Ok(SeccompInstall::Install { filters }) => {
            assert_eq!(filters.len(), 6);
            assert_eq!(filters[0], sock_filter { code: 0x20, jt: 0, jf: 0, k: 8 });
            assert_eq!(filters[1], sock_filter { code: 0x15, jt: 0, jf: 1, k: 0x7000_000b });
            assert_eq!(filters[2], sock_filter { code: 0x06, jt: 0, jf: 0, k: 0x7fff_0000 });
            assert_eq!(filters[3].k, 0x7fff_0000);
            assert_eq!(filters[4].k, 0x7ff0_0100);
            assert_eq!(filters[5].k, 0x7ff0_0100);
        }
        _ => panic!("the filter is readable and well formed"),
    }
    assert_eq!(rewriter.index_to_result(), vec![0x0005_0001]);
}

fn seccomp_data(nr: u32, ip_low: u32) -> Vec<u32> {
    let mut data = vec![0u32; 16];
    data[0] = nr;
    data[1] = 0xc000_003e;
    data[2] = ip_low;
    data
}

// A filter in the usual shape: load the syscall number, allow some, stop
// the others with one verdict or another.
fn sample_filter() -> Vec<sock_filter> {
    vec![
        sock_filter { code: 0x20, jt: 0, jf: 0, k: 0 },
        sock_filter { code: 0x15, jt: 3, jf: 0, k: 1 },
        sock_filter { code: 0x15, jt: 1, jf: 0, k: 2 },
        sock_filter { code: 0x06, jt: 0, jf: 0, k: 0x0005_0016 },
        sock_filter { code: 0x06, jt: 0, jf: 0, k: 0x0000_0000 },
        sock_filter { code: 0x06, jt: 0, jf: 0, k: 0x7fff_0000 },
    ]
}

fn install(code: &[sock_filter], stubs: &Vec<RdPageSyscall>) -> (SeccompFilterRewriter, Vec<sock_filter>) {
    let t = task_with_filter(code);
    let mut rewriter = SeccompFilterRewriter::new();
    match rewriter.install_patched_seccomp_filter(&t, stubs) {
        Ok(SeccompInstall::Install { filters }) => (rewriter, filters),
        _ => panic!("the filter is readable and well formed"),
    }
}

#[test]
fn interpreter_runs_the_sample_filter() {
    let f = sample_filter();
    assert_eq!(rd::seccomp_bpf::run_filter(&f, &seccomp_data(1, 0)), Some(0x7fff_0000));
    assert_eq!(rd::seccomp_bpf::run_filter(&f, &seccomp_data(2, 0)), Some(0));
    assert_eq!(rd::seccomp_bpf::run_filter(&f, &seccomp_data(3, 0)), Some(0x0005_0016));
}

#[test]
fn interpreter_stops_on_what_seccomp_does_not_run() {
    // A load of a byte, a jump off the end, and an empty program.
    let byte_load = vec![sock_filter { code: 0x30, jt: 0, jf: 0, k: 0 }];
    assert_eq!(rd::seccomp_bpf::run_filter(&byte_load, &seccomp_data(0, 0)), None);
    let jump_away = vec![sock_filter { code: 0x05, jt: 0, jf: 0, k: 7 }];
    assert_eq!(rd::seccomp_bpf::run_filter(&jump_away, &seccomp_data(0, 0)), None);
    assert_eq!(rd::seccomp_bpf::run_filter(&Vec::new(), &seccomp_data(0, 0)), None);
}

#[test]
fn interpreter_does_arithmetic_in_32_bits() {
    // a = 0xffffffff; a += 2; ret a
    let prog = vec![
        sock_filter { code: 0x00, jt: 0, jf: 0, k: 0xffff_ffff },
        sock_filter { code: 0x04, jt: 0, jf: 0, k: 2 },
        sock_filter { code: 0x16, jt: 0, jf: 0, k: 0 },
    ];
    assert_eq!(rd::seccomp_bpf::run_filter(&prog, &seccomp_data(0, 0)), Some(1));
    // a = 5; a -= 7; ret a
    let prog = vec![
        sock_filter { code: 0x00, jt: 0, jf: 0, k: 5 },
        sock_filter { code: 0x14, jt: 0, jf: 0, k: 7 },
        sock_filter { code: 0x16, jt: 0, jf: 0, k: 0 },
    ];
    assert_eq!(rd::seccomp_bpf::run_filter(&prog, &seccomp_data(0, 0)), Some(0xffff_fffe));
    // a = 6; x = a; a = 0; mem[3] = x; a = mem[3]; a *= 7; ret a
    let prog = vec![
        sock_filter { code: 0x00, jt: 0, jf: 0, k: 6 },
        sock_filter { code: 0x07, jt: 0, jf: 0, k: 0 },
        sock_filter { code: 0x00, jt: 0, jf: 0, k: 0 },
        sock_filter { code: 0x03, jt: 0, jf: 0, k: 3 },
        sock_filter { code: 0x60, jt: 0, jf: 0, k: 3 },
        sock_filter { code: 0x24, jt: 0, jf: 0, k: 7 },
        sock_filter { code: 0x16, jt: 0, jf: 0, k: 0 },
    ];
    assert_eq!(rd::seccomp_bpf::run_filter(&prog, &seccomp_data(0, 0)), Some(42));
}

#[test]
fn stopped_syscalls_are_traced_with_a_value_that_maps_back() {
    let f = sample_filter();
    let stubs = vec![RdPageSyscall { privileged: true, enabled: true, exit_point: 0x7000_000b }];
    let (rewriter, installed) = install(&f, &stubs);
    for nr in 0..6u32 {
        let data = seccomp_data(nr, 0x4000_1234);
        let verdict = rd::seccomp_bpf::run_filter(&f, &data).unwrap();
        let patched = rd::seccomp_bpf::run_filter(&installed, &data).unwrap();
        if verdict == 0x7fff_0000 {
            assert_eq!(patched, 0x7fff_0000);
        } else {
            assert_eq!(patched & 0xffff_0000, 0x7ff0_0000);
            let mut real: u32 = 0xdead_beef;
            assert!(rewriter.map_filter_data_to_real_result((patched & 0xffff) as u16, &mut real));
            assert_eq!(real, verdict);
        }
    }
}

#[test]
fn allowed_syscalls_stay_allowed_and_stubs_are_always_allowed() {
    let f = sample_filter();
    let stubs = vec![
        RdPageSyscall { privileged: true, enabled: true, exit_point: 0x7000_000b },
        RdPageSyscall { privileged: true, enabled: true, exit_point: 0x7000_0020 },
    ];
    let (_, installed) = install(&f, &stubs);
    // Allowed by the filter: allowed by the installed program.
    assert_eq!(rd::seccomp_bpf::run_filter(&f, &seccomp_data(1, 0x4000_0000)), Some(0x7fff_0000));
    assert_eq!(
        rd::seccomp_bpf::run_filter(&installed, &seccomp_data(1, 0x4000_0000)),
        Some(0x7fff_0000)
    );
    // Stopped by the filter, but made from a privileged stub: allowed.
    assert_eq!(rd::seccomp_bpf::run_filter(&f, &seccomp_data(3, 0x7000_000b)), Some(0x0005_0016));
    assert_eq!(
        rd::seccomp_bpf::run_filter(&installed, &seccomp_data(3, 0x7000_000b)),
        Some(0x7fff_0000)
    );
    assert_eq!(
        rd::seccomp_bpf::run_filter(&installed, &seccomp_data(3, 0x7000_0020)),
        Some(0x7fff_0000)
    );
    // Stopped by the filter, made from elsewhere: not allowed.
    assert_ne!(
        rd::seccomp_bpf::run_filter(&installed, &seccomp_data(3, 0x7000_000c)),
        Some(0x7fff_0000)
    );
}

#[test]
fn every_verdict_is_recovered_from_its_index() {
    let f = sample_filter();
    let (rewriter, _) = install(&f, &Vec::new());
    let table = rewriter.index_to_result();
    assert_eq!(table, vec![0x0005_0016, 0x0000_0000]);
    for (i, v) in table.iter().enumerate() {
        assert_eq!(rewriter.index_of(*v), Some(i as u16));
        let mut real: u32 = 1;
        assert!(rewriter.is_known_filter_data(0x100 + i as u16));
        assert!(rewriter.map_filter_data_to_real_result(0x100 + i as u16, &mut real));
        assert_eq!(real, *v);
    }
    assert!(!rewriter.is_known_filter_data(0x102));
    assert_eq!(rewriter.index_of(0x7fff_0000), None);
}

#[test]
fn table_is_shared_by_the_filters_of_a_session() {
    let t1 = task_with_filter(&[sock_filter { code: 0x06, jt: 0, jf: 0, k: 0x30000 }]);
    let t2 = task_with_filter(&[
        sock_filter { code: 0x06, jt: 0, jf: 0, k: 0x50001 },
        sock_filter { code: 0x06, jt: 0, jf: 0, k: 0x30000 },
    ]);
    let mut rewriter = SeccompFilterRewriter::new();
    assert!(rewriter.install_patched_seccomp_filter(&t1, &Vec::new()).is_ok());
    match rewriter.install_patched_seccomp_filter(&t2, &Vec::new()) {
        Ok(SeccompInstall::Install { filters }) => {
            assert_eq!(filters[0].k, 0x7ff0_0101);
            assert_eq!(filters[1].k, 0x7ff0_0100);
        }
        _ => panic!("the filter is readable and well formed"),
    }
    assert_eq!(rewriter.index_to_result(), vec![0x30000, 0x50001]);
}

#[test]
fn too_many_verdicts_are_refused_and_forgotten() {
    let mut rewriter = SeccompFilterRewriter::new();
    // Fill the table to its limit, a thousand verdicts at a time.
    let mut next: u32 = 1;
    while (next as usize) <= 0xfeff {
        let mut code = Vec::new();
        while code.len() < 1000 && (next as usize) <= 0xfeff {
            code.push(sock_filter { code: 0x06, jt: 0, jf: 0, k: next });
            next += 1;
        }
        assert!(rewriter.rewrite_program(&code).is_ok());
    }
    assert_eq!(rewriter.index_to_result().len(), 0xfeff);
    let one_more = vec![
        sock_filter { code: 0x06, jt: 0, jf: 0, k: 5 },
        sock_filter { code: 0x06, jt: 0, jf: 0, k: 0x10_0000 },
    ];
    assert!(matches!(rewriter.rewrite_program(&one_more), Err(RewriteError::TooManyConstants)));
    assert_eq!(rewriter.index_to_result().len(), 0xfeff);
    assert_eq!(rewriter.index_of(0x10_0000), None);
    // The last index still fits 16 bits.
    let known = vec![sock_filter { code: 0x06, jt: 0, jf: 0, k: 0xfeff }];
    let patched = rewriter.rewrite_program(&known).unwrap();
    assert_eq!(patched[0].k, 0x7ff0_0000 | 0xfffe);
}

#[test]
fn installation_image_holds_program_and_pointer() {
    let filters = vec![
        sock_filter { code: 0x20, jt: 1, jf: 2, k: 0x0403_0201 },
        sock_filter { code: 0x06, jt: 0, jf: 0, k: 0x7fff_0000 },
    ];
    let image =
        rd::seccomp_filter_rewriter::installation_image(SupportedArch::X64, &filters, 0x7000_1000)
            .unwrap();
    assert_eq!(
        image,
        vec![
            0x20, 0x00, 1, 2, 0x01, 0x02, 0x03, 0x04, 0x06, 0x00, 0, 0, 0x00, 0x00, 0xff, 0x7f, 2,
            0, 0, 0, 0, 0, 0, 0, 0x00, 0x10, 0x00, 0x70, 0, 0, 0, 0
        ]
    );
    let image =
        rd::seccomp_filter_rewriter::installation_image(SupportedArch::X86, &filters, 0x7000_1000)
            .unwrap();
    assert_eq!(image.len(), 24);
    assert_eq!(&image[16..], &[2, 0, 0, 0, 0x00, 0x10, 0x00, 0x70]);
    assert!(rd::seccomp_filter_rewriter::installation_image(
        SupportedArch::X86,
        &filters,
        0x1_0000_0000
    )
    .is_none());
}

#[test]
fn completed_installation_marks_the_task() {
    let mut t = task_with_filter(&[]);
    // prctl: the thread group is not involved.
    t.regs.orig_ax = 157;
    t.regs.set_arg(2, 1);
    assert!(!rd::seccomp_filter_rewriter::complete_seccomp_install(&mut t, 0));
    assert_eq!(t.prctl_seccomp_status, 2);
    assert_eq!(t.regs.syscall_result(), 0);
    // seccomp with TSYNC: every task of the thread group is.
    let mut t = task_with_filter(&[]);
    t.regs.orig_ax = 317;
    t.regs.set_arg(2, 1);
    assert!(rd::seccomp_filter_rewriter::complete_seccomp_install(&mut t, 0));
    assert_eq!(t.prctl_seccomp_status, 2);
    // A failed installation changes nothing but the result.
    let mut t = task_with_filter(&[]);
    t.regs.orig_ax = 317;
    t.regs.set_arg(2, 1);
    assert!(!rd::seccomp_filter_rewriter::complete_seccomp_install(&mut t, -22));
    assert_eq!(t.prctl_seccomp_status, 0);
    assert_eq!(t.regs.syscall_result_signed(), -22);
    assert!(t.regs.syscall_failed());
}

#[test]
fn passed_through_installation_reports_the_kernels_error() {
    let mut t = task_with_filter(&[]);
    rd::seccomp_filter_rewriter::pass_through_seccomp_filter(&mut t, -14);
    assert_eq!(t.regs.syscall_result_signed(), -14);
    assert!(t.regs.syscall_failed());
}
