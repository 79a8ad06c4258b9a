use rd::kernel_abi::SupportedArch;
use rd::param_size::{align_scratch, get_remote_ptr, set_remote_ptr, ArgMode, ParamSize, WriteBack};
use rd::record_task::{RecordTask, Switchable, SyscallEvent, TaskUid};
use rd::registers::Registers;
use rd::task_syscall_state::TaskSyscallState;
use rd::tracee_memory::TraceeMemory;

const SCRATCH: u64 = 0x7000_0000;

fn task(arch: SupportedArch) -> RecordTask {
    let mut mem = TraceeMemory::new();
    mem.map_zeroed(0x1000, 0x1000);
    mem.map_zeroed(SCRATCH, 0x1000);
    RecordTask {
        tuid: TaskUid { tid: 7, serial: 1 },
        regs: Registers::new(arch),
        mem,
        scratch_ptr: SCRATCH,
        usable_scratch_size: 0x800,
        desched_rec: 0,
        prctl_seccomp_status: 0,
        tsc_mode: 1,
        dumpable: true,
        done_initial_exec: true,
        syscall_event: SyscallEvent { number: 0, arch },
        trace: Vec::new(),
    }
}

fn entered(t: &RecordTask) -> TaskSyscallState {
    let mut s = TaskSyscallState::new(t.tuid);
    s.init(t);
    s.syscall_entry_registers = t.regs;
    s
}

fn read(t: &RecordTask, addr: u64, len: usize) -> Vec<u8> {
    t.mem.read_bytes(addr, len).unwrap()
}

#[test]
fn eval_takes_what_is_left_of_the_least_source() {
    let mut t = task(SupportedArch::X64);
    let p = ParamSize::from_syscall_result_with_size(10, 8);
    t.regs.set_syscall_result(15);
    assert_eq!(p.eval(&t, 0), 10);
    assert_eq!(p.eval(&t, 4), 6);
    assert_eq!(p.eval(&t, 10), 0);
    assert_eq!(p.eval(&t, 15), 0);
    assert_eq!(p.eval(&t, 20), 0);
    t.regs.set_syscall_result(8);
    assert_eq!(p.eval(&t, 0), 8);
    assert_eq!(p.eval(&t, 5), 3);
    // A size without a dynamic source is the incoming size.
    assert_eq!(ParamSize::from_size(4).eval(&t, 3), 4);
    t.regs.set_syscall_result(15);
    // An error result stands for nothing written.
    t.regs.set_syscall_result_signed(-4);
    assert_eq!(p.eval(&t, 0), 0);
    // A result read as 32 bits.
    t.regs.set_syscall_result(0x1_0000_0003);
    assert_eq!(ParamSize::from_syscall_result_with_size(10, 4).eval(&t, 0), 3);
    assert_eq!(ParamSize::from_syscall_result_with_size(10, 8).eval(&t, 0), 10);
}

#[test]
fn eval_reads_the_size_cell() {
    let mut t = task(SupportedArch::X64);
    assert!(t.mem.write_bytes(0x1800, &vec![7, 0, 0, 0, 1, 0, 0, 0]));
    let p = ParamSize::from_initialized_mem(&t, 0x1800, 4);
    assert_eq!(p.incoming_size, 7);
    assert_eq!(p.mem_ptr, 0x1800);
    assert!(t.mem.write_bytes(0x1800, &vec![5, 0, 0, 0]));
    assert_eq!(p.eval(&t, 0), 5);
    assert_eq!(p.eval(&t, 2), 3);
    assert_eq!(p.eval(&t, 9), 0);
    assert!(t.mem.write_bytes(0x1800, &vec![200, 0, 0, 0]));
    assert_eq!(p.eval(&t, 0), 7);
    assert_eq!(p.eval(&t, 5), 2);
    // Ten bytes come in, the cell says a hundred, five are taken.
    assert!(t.mem.write_bytes(0x1810, &vec![10, 0, 0, 0]));
    let ten = ParamSize::from_initialized_mem(&t, 0x1810, 4);
    assert!(t.mem.write_bytes(0x1810, &vec![100, 0, 0, 0]));
    assert_eq!(ten.eval(&t, 5), 5);
    // Eight bytes are read where the cell has eight.
    let from_cell = ParamSize::from_initialized_mem(&t, 0x1800, 8);
    assert_eq!(from_cell.incoming_size, 0x7fff_ffff);
    // A null cell gives nothing.
    let none = ParamSize::from_initialized_mem(&t, 0, 4);
    assert_eq!(none.incoming_size, 0);
    assert_eq!(none.eval(&t, 0), 0);
}

#[test]
fn incoming_size_is_capped() {
    assert_eq!(ParamSize::from_size(12).incoming_size, 12);
    assert_eq!(ParamSize::from_size(0x7fff_ffff).incoming_size, 0x7fff_ffff);
    assert_eq!(ParamSize::from_size(0x8000_0000).incoming_size, 0x7fff_ffff);
    assert_eq!(ParamSize::from(0x9000_0000usize).incoming_size, 0x7fff_ffff);
    assert_eq!(ParamSize::from_size(100).limit_size(30).incoming_size, 30);
    assert_eq!(ParamSize::from_size(10).limit_size(30).incoming_size, 10);
    assert_eq!(ParamSize::from_mem(0x1800, 4).incoming_size, 0);
    assert!(ParamSize::from_syscall_result(8).from_syscall);
}

#[test]
fn sources_are_the_same_by_cell_or_by_result() {
    let a = ParamSize::from_mem(0x1800, 4);
    let b = ParamSize::from_mem(0x1800, 4);
    let c = ParamSize::from_mem(0x1808, 4);
    let d = ParamSize::from_mem(0x1800, 8);
    assert!(a.is_same_source(&b));
    assert!(!a.is_same_source(&c));
    assert!(!a.is_same_source(&d));
    let r = ParamSize::from_syscall_result(8);
    assert!(r.is_same_source(&ParamSize::from_syscall_result_with_size(9, 8)));
    assert!(!r.is_same_source(&ParamSize::from_syscall_result(4)));
    assert!(!ParamSize::from_size(4).is_same_source(&ParamSize::from_size(4)));
}

#[test]
fn scratch_is_aligned_to_eight_bytes() {
    let mut s: u64 = 0x7000_0001;
    align_scratch(&mut s, None);
    assert_eq!(s, 0x7000_0008);
    align_scratch(&mut s, None);
    assert_eq!(s, 0x7000_0008);
    let mut s: u64 = 0x7000_0011;
    align_scratch(&mut s, Some(16));
    assert_eq!(s, 0x7000_0020);
}

#[test]
fn remote_pointers_have_the_size_of_the_architecture() {
    let mut t = task(SupportedArch::X86);
    assert!(t.mem.write_bytes(0x1000, &vec![0xff; 8]));
    set_remote_ptr(&mut t, 0x1000, 0x1_1234_5678);
    assert_eq!(read(&t, 0x1000, 8), vec![0x78, 0x56, 0x34, 0x12, 0xff, 0xff, 0xff, 0xff]);
    assert_eq!(get_remote_ptr(&t, 0x1000), 0x1234_5678);
    let mut t = task(SupportedArch::X64);
    set_remote_ptr(&mut t, 0x1000, 0x1_1234_5678);
    assert_eq!(read(&t, 0x1000, 8), vec![0x78, 0x56, 0x34, 0x12, 0x01, 0, 0, 0]);
    assert_eq!(get_remote_ptr(&t, 0x1000), 0x1_1234_5678);
}

#[test]
fn registration_allocates_scratch_in_order() {
    let mut t = task(SupportedArch::X64);
    t.regs.set_arg(1, 0x1100);
    t.regs.set_arg(2, 0x1200);
    t.regs.set_arg(3, 0);
    let mut s = entered(&t);
    assert_eq!(s.reg_parameter(1, 13, None, false), 0x1100);
    assert_eq!(s.scratch, SCRATCH + 16);
    assert_eq!(s.reg_parameter(2, 8, Some(ArgMode::InOutNoScratch), false), 0x1200);
    assert_eq!(s.scratch, SCRATCH + 16);
    // A null pointer registers nothing.
    assert_eq!(s.reg_parameter(3, 8, None, false), 0);
    assert_eq!(s.param_list.len(), 2);
    assert_eq!(s.param_list[0].scratch, SCRATCH);
    assert_eq!(s.param_list[0].ptr_in_reg, 1);
    assert_eq!(s.param_list[0].mode, ArgMode::Out);
    assert_eq!(s.param_list[1].scratch, 0);
    assert_eq!(s.param_list[1].ptr_in_reg, 0);
    // Nor does anything once the syscall is prepared.
    s.done_preparing(&mut t, Switchable::PreventSwitch, &Vec::new());
    assert_eq!(s.reg_parameter(1, 13, None, false), 0);
    assert_eq!(s.param_list.len(), 2);
}

#[test]
fn destination_is_untouched_at_entry_and_holds_the_output_at_exit() {
    let mut t = task(SupportedArch::X64);
    assert!(t.mem.write_bytes(0x1000, &vec![0xaa; 32]));
    t.regs.set_arg(2, 0x1008);
    let mut s = entered(&t);
    s.reg_parameter_with_size(
        2,
        ParamSize::from_syscall_result_with_size(16, 8),
        Some(ArgMode::Out),
        false,
    );
    let before = read(&t, 0x1000, 0x1000);
    assert_eq!(s.done_preparing(&mut t, Switchable::AllowSwitch, &Vec::new()), Switchable::AllowSwitch);
    assert!(s.scratch_enabled);
    assert!(s.preparation_done);
    assert_eq!(s.write_back, WriteBack::WriteBack);
    assert_eq!(t.regs.arg(2), SCRATCH);
    assert_eq!(read(&t, 0x1000, 0x1000), before);
    // The kernel writes eleven bytes to where it was pointed.
    assert!(t.mem.write_bytes(SCRATCH, &b"hello world+++++".to_vec()));
    t.regs.set_syscall_result(11);
    s.process_syscall_results(&mut t);
    assert_eq!(read(&t, 0x1008, 11), b"hello world".to_vec());
    assert_eq!(read(&t, 0x1000, 8), vec![0xaa; 8]);
    assert_eq!(read(&t, 0x1013, 13), vec![0xaa; 13]);
    assert_eq!(t.regs.arg(2), 0x1008);
    assert_eq!(t.regs.syscall_result(), 11);
    assert_eq!(t.trace.len(), 1);
    assert_eq!(t.trace[0].addr, 0x1008);
    assert_eq!(t.trace[0].data, b"hello world".to_vec());
}

#[test]
fn abort_after_results_changes_no_memory() {
    let mut t = task(SupportedArch::X64);
    assert!(t.mem.write_bytes(0x1100, &vec![0x00, 0x12, 0, 0, 0, 0, 0, 0, 9, 9, 9, 9, 9, 9, 9, 9]));
    t.regs.set_arg(1, 0x1100);
    let mut s = entered(&t);
    assert_eq!(s.reg_parameter(1, 16, Some(ArgMode::InOut), false), 0x1100);
    assert_eq!(s.mem_ptr_parameter(&t, 0x1100, 8, Some(ArgMode::Out), false), 0x1200);
    assert_eq!(s.done_preparing(&mut t, Switchable::AllowSwitch, &Vec::new()), Switchable::AllowSwitch);
    // The pointer in the copy leads to scratch memory; the tracee's own
    // copy is as it was.
    assert_eq!(get_remote_ptr(&t, SCRATCH), SCRATCH + 16);
    assert_eq!(get_remote_ptr(&t, 0x1100), 0x1200);
    assert_eq!(t.regs.arg(1), SCRATCH);
    assert!(t.mem.write_bytes(SCRATCH + 16, &vec![1, 2, 3, 4, 5, 6, 7, 8]));
    s.process_syscall_results(&mut t);
    assert_eq!(read(&t, 0x1200, 8), vec![1, 2, 3, 4, 5, 6, 7, 8]);
    assert_eq!(get_remote_ptr(&t, 0x1100), 0x1200);
    assert_eq!(read(&t, 0x1108, 8), vec![9; 8]);
    assert_eq!(t.regs.arg(1), 0x1100);
    // Pointers were restored in memory, so the outputs are recorded from
    // memory.
    assert_eq!(t.trace.len(), 2);
    assert_eq!(t.trace[0].addr, 0x1100);
    assert_eq!(t.trace[0].data, read(&t, 0x1100, 16));
    assert_eq!(t.trace[1].addr, 0x1200);
    let after_results = (read(&t, 0x1000, 0x1000), read(&t, SCRATCH, 0x1000));
    s.abort_syscall_results(&mut t);
    assert_eq!((read(&t, 0x1000, 0x1000), read(&t, SCRATCH, 0x1000)), after_results);
    assert_eq!(t.regs.arg(1), 0x1100);
}

#[test]
fn abort_undoes_the_setup() {
    let mut t = task(SupportedArch::X64);
    assert!(t.mem.write_bytes(0x1100, &vec![0x00, 0x12, 0, 0, 0, 0, 0, 0]));
    t.regs.set_arg(1, 0x1100);
    let mut s = entered(&t);
    s.reg_parameter(1, 8, Some(ArgMode::InOut), false);
    let before = read(&t, 0x1000, 0x1000);
    s.done_preparing(&mut t, Switchable::AllowSwitch, &Vec::new());
    assert_eq!(t.regs.arg(1), SCRATCH);
    s.abort_syscall_results(&mut t);
    assert_eq!(t.regs.arg(1), 0x1100);
    assert_eq!(read(&t, 0x1000, 0x1000), before);
}

#[test]
fn parameters_share_the_syscall_result_in_order() {
    let mut t = task(SupportedArch::X64);
    t.regs.set_arg(1, 0x1100);
    t.regs.set_arg(2, 0x1200);
    t.regs.set_arg(3, 0x1300);
    let mut s = entered(&t);
    for (arg, incoming) in [(1, 4), (2, 10), (3, 10)] {
        s.reg_parameter_with_size(
            arg,
            ParamSize::from_syscall_result_with_size(incoming, 8),
            None,
            false,
        );
    }
    s.done_preparing(&mut t, Switchable::AllowSwitch, &Vec::new());
    assert!(t.mem.write_bytes(SCRATCH, &vec![1; 8]));
    assert!(t.mem.write_bytes(SCRATCH + 8, &vec![2; 16]));
    assert!(t.mem.write_bytes(SCRATCH + 24, &vec![3; 16]));
    t.regs.set_syscall_result(9);
    // The first takes its four bytes; the second what is left of nine; the
    // third finds the nine used up.
    assert_eq!(s.evaluate_sizes(&t), vec![4, 5, 0]);
    s.process_syscall_results(&mut t);
    assert_eq!(read(&t, 0x1100, 5), vec![1, 1, 1, 1, 0]);
    assert_eq!(read(&t, 0x1200, 6), vec![2, 2, 2, 2, 2, 0]);
    assert_eq!(read(&t, 0x1300, 1), vec![0]);
    assert_eq!(t.trace.len(), 3);
    assert_eq!(t.trace[0].data, vec![1; 4]);
    assert_eq!(t.trace[1].data, vec![2; 5]);
    assert_eq!(t.trace[2].data, Vec::<u8>::new());
}

#[test]
fn too_little_scratch_prevents_switching() {
    let mut t = task(SupportedArch::X64);
    t.usable_scratch_size = 8;
    t.regs.set_arg(1, 0x1100);
    let mut s = entered(&t);
    s.reg_parameter(1, 64, None, false);
    assert_eq!(s.done_preparing(&mut t, Switchable::AllowSwitch, &Vec::new()), Switchable::PreventSwitch);
    assert!(!s.scratch_enabled);
    assert_eq!(s.switchable, Switchable::PreventSwitch);
    assert_eq!(t.regs.arg(1), 0x1100);
    // Without scratch memory the output is recorded where the kernel
    // wrote it.
    assert!(t.mem.write_bytes(0x1100, &vec![5; 64]));
    s.process_syscall_results(&mut t);
    assert_eq!(t.trace.len(), 1);
    assert_eq!(t.trace[0].addr, 0x1100);
    assert_eq!(t.trace[0].data, vec![5; 64]);
}

#[test]
fn no_scratch_without_a_scratch_buffer_or_without_parameters() {
    let mut t = task(SupportedArch::X64);
    let mut s = entered(&t);
    assert_eq!(s.done_preparing(&mut t, Switchable::AllowSwitch, &Vec::new()), Switchable::AllowSwitch);
    assert!(!s.scratch_enabled);
    let mut t = task(SupportedArch::X64);
    t.scratch_ptr = 0;
    t.regs.set_arg(1, 0x1100);
    let mut s = entered(&t);
    s.reg_parameter(1, 8, None, false);
    assert_eq!(s.done_preparing(&mut t, Switchable::AllowSwitch, &Vec::new()), Switchable::AllowSwitch);
    assert!(!s.scratch_enabled);
    // A prepared syscall is not prepared again.
    assert_eq!(s.done_preparing(&mut t, Switchable::PreventSwitch, &Vec::new()), Switchable::AllowSwitch);
}

#[test]
fn mutated_parameter_is_put_back_without_scratch() {
    let mut t = task(SupportedArch::X64);
    assert!(t.mem.write_bytes(0x1100, &vec![1, 2, 3, 4]));
    assert!(t.mem.write_bytes(0x1200, &vec![5, 6]));
    t.regs.set_arg(1, 0x1100);
    t.regs.set_arg(2, 0x1200);
    let mut s = entered(&t);
    s.reg_parameter(1, 4, Some(ArgMode::In), true);
    s.reg_parameter(2, 2, Some(ArgMode::In), true);
    let decisions = vec![Some(vec![9, 9, 9, 9]), None];
    s.done_preparing(&mut t, Switchable::PreventSwitch, &decisions);
    assert_eq!(read(&t, 0x1100, 4), vec![9, 9, 9, 9]);
    assert_eq!(read(&t, 0x1200, 2), vec![5, 6]);
    assert_eq!(s.saved_data, vec![1, 2, 3, 4]);
    assert!(s.param_list[0].has_mutator);
    assert!(!s.param_list[1].has_mutator);
    s.process_syscall_results(&mut t);
    assert_eq!(read(&t, 0x1100, 4), vec![1, 2, 3, 4]);
    assert!(s.saved_data.is_empty());
}

#[test]
fn mutated_parameter_is_changed_in_scratch_only() {
    let mut t = task(SupportedArch::X64);
    assert!(t.mem.write_bytes(0x1100, &vec![1, 2, 3, 4]));
    t.regs.set_arg(1, 0x1100);
    let mut s = entered(&t);
    s.reg_parameter(1, 4, Some(ArgMode::In), true);
    s.done_preparing(&mut t, Switchable::AllowSwitch, &vec![Some(vec![9, 9, 9, 9])]);
    assert_eq!(read(&t, 0x1100, 4), vec![1, 2, 3, 4]);
    assert_eq!(read(&t, SCRATCH, 4), vec![9, 9, 9, 9]);
    assert!(s.saved_data.is_empty());
    s.abort_syscall_results(&mut t);
    assert_eq!(read(&t, 0x1100, 4), vec![1, 2, 3, 4]);
}

#[test]
fn abort_puts_mutated_parameters_back() {
    let mut t = task(SupportedArch::X64);
    assert!(t.mem.write_bytes(0x1100, &vec![1, 2, 3, 4]));
    t.regs.set_arg(1, 0x1100);
    let mut s = entered(&t);
    s.reg_parameter(1, 4, Some(ArgMode::In), true);
    s.done_preparing(&mut t, Switchable::PreventSwitch, &vec![Some(vec![7, 7, 7, 7])]);
    assert_eq!(read(&t, 0x1100, 4), vec![7, 7, 7, 7]);
    s.abort_syscall_results(&mut t);
    assert_eq!(read(&t, 0x1100, 4), vec![1, 2, 3, 4]);
    assert!(s.saved_data.is_empty());
}

#[test]
fn emulated_result_replaces_the_result() {
    let mut t = task(SupportedArch::X86);
    let mut s = entered(&t);
    s.emulate_result_signed(-22);
    assert_eq!(s.emulated_result, 0xffff_ffff_ffff_ffea);
    s.done_preparing(&mut t, Switchable::PreventSwitch, &Vec::new());
    t.regs.set_syscall_result(0);
    s.process_syscall_results(&mut t);
    assert_eq!(t.regs.syscall_result(), 0xffff_ffea);
    assert_eq!(t.regs.syscall_result_signed(), -22);
    let mut s = entered(&t);
    s.emulate_result(3);
    assert!(s.should_emulate_result);
    assert_eq!(s.emulated_result, 3);
}

#[test]
fn relocation_needs_exactly_one_parameter() {
    let mut t = task(SupportedArch::X64);
    t.regs.set_arg(1, 0x1100);
    t.regs.set_arg(2, 0x1104);
    let mut s = entered(&t);
    s.reg_parameter(1, 8, None, false);
    assert_eq!(s.relocate_pointer_to_scratch(0x1100), Some(SCRATCH));
    assert_eq!(s.relocate_pointer_to_scratch(0x1107), Some(SCRATCH + 7));
    assert_eq!(s.relocate_pointer_to_scratch(0x1108), None);
    assert_eq!(s.relocate_pointer_to_scratch(0x10ff), None);
    s.reg_parameter(2, 8, None, false);
    assert_eq!(s.relocate_pointer_to_scratch(0x1102), Some(SCRATCH + 2));
    assert_eq!(s.relocate_pointer_to_scratch(0x1105), None);
    assert_eq!(s.relocate_pointer_to_scratch(0x1109), Some(SCRATCH + 8 + 5));
    let _ = &mut t;
}

#[test]
fn checks_say_when_the_phases_can_run() {
    let mut t = task(SupportedArch::X64);
    t.regs.set_arg(1, 0x1100);
    t.regs.set_arg(2, 0x1ffc);
    let mut s = entered(&t);
    assert!(s.is_well_formed());
    s.reg_parameter(1, 8, Some(ArgMode::InOut), false);
    assert!(s.can_finish_preparing(&t, Switchable::AllowSwitch, &Vec::new()));
    assert!(!s.can_process_results(&t));
    assert!(!s.can_abort_results(&t));
    // An input that reaches beyond what is mapped cannot be copied.
    s.reg_parameter(2, 8, Some(ArgMode::In), false);
    assert!(!s.are_inputs_mapped(&t));
    assert!(!s.can_finish_preparing(&t, Switchable::AllowSwitch, &Vec::new()));
    // Without scratch memory it is not copied.
    assert!(s.can_finish_preparing(&t, Switchable::PreventSwitch, &Vec::new()));
    s.done_preparing(&mut t, Switchable::PreventSwitch, &Vec::new());
    assert!(!s.can_finish_preparing(&t, Switchable::PreventSwitch, &Vec::new()));
    // Eight bytes at 0x1ffc cannot be recorded either.
    assert!(!s.can_process_results(&t));
    assert!(s.can_abort_results(&t));
    // Another task's state is of no use.
    let mut other = task(SupportedArch::X64);
    other.tuid = TaskUid { tid: 8, serial: 1 };
    assert!(!s.can_abort_results(&other));
}

#[test]
fn checks_look_at_pointers_and_decisions() {
    let mut t = task(SupportedArch::X64);
    assert!(t.mem.write_bytes(0x1100, &vec![0x00, 0x12, 0, 0, 0, 0, 0, 0]));
    t.regs.set_arg(1, 0x1100);
    let mut s = entered(&t);
    s.reg_parameter(1, 8, Some(ArgMode::InOut), false);
    s.mem_ptr_parameter(&t, 0x1100, 8, Some(ArgMode::Out), false);
    assert!(s.are_pointers_movable(&t));
    assert!(s.are_size_cells_movable());
    assert!(s.can_finish_preparing(&t, Switchable::AllowSwitch, &Vec::new()));
    // A pointer outside every parameter cannot be moved.
    s.param_list[1].ptr_in_memory = 0x1800;
    assert!(!s.are_pointers_movable(&t));
    assert!(!s.can_finish_preparing(&t, Switchable::AllowSwitch, &Vec::new()));
    s.param_list[1].ptr_in_memory = 0x1100;
    s.param_list[1].num_bytes = ParamSize::from_mem(0x1900, 4);
    assert!(!s.are_size_cells_movable());
    // A mutator needs a decision of the right size.
    let mut s = entered(&t);
    s.reg_parameter(1, 4, Some(ArgMode::In), true);
    assert!(!s.are_decisions_ready(&t, false, &Vec::new()));
    assert!(s.are_decisions_ready(&t, false, &vec![None]));
    assert!(s.are_decisions_ready(&t, true, &vec![Some(vec![1, 2, 3, 4])]));
    assert!(!s.are_decisions_ready(&t, true, &vec![Some(vec![1, 2, 3])]));
    // A malformed parameter is seen.
    s.param_list[0].mode = ArgMode::Out;
    assert!(!s.is_well_formed());
    s.param_list[0].mode = ArgMode::In;
    s.param_list[0].ptr_in_reg = 7;
    assert!(!s.is_well_formed());
}

#[test]
fn results_can_be_processed_when_all_memory_is_there() {
    let mut t = task(SupportedArch::X64);
    t.regs.set_arg(1, 0x1100);
    let mut s = entered(&t);
    s.reg_parameter_with_size(1, ParamSize::from_syscall_result_with_size(64, 8), None, false);
    s.done_preparing(&mut t, Switchable::AllowSwitch, &Vec::new());
    t.regs.set_syscall_result(64);
    assert!(s.can_process_results(&t));
    assert!(s.can_abort_results(&t));
    assert!(s.are_sizes_readable(&t));
    // The destination ends at 0x2000: 64 bytes at 0x1fe0 do not fit.
    s.param_list[0].dest = 0x1fe0;
    assert!(!s.can_process_results(&t));
    t.regs.set_syscall_result(32);
    assert!(s.can_process_results(&t));
    // Saved originals have to be all there.
    let mut t = task(SupportedArch::X64);
    t.regs.set_arg(1, 0x1100);
    let mut s = entered(&t);
    s.reg_parameter(1, 4, Some(ArgMode::In), true);
    s.done_preparing(&mut t, Switchable::PreventSwitch, &vec![Some(vec![9, 9, 9, 9])]);
    assert_eq!(s.saved_bytes_expected(), Some(4));
    assert!(s.can_process_results(&t));
    s.saved_data.pop();
    assert!(!s.can_process_results(&t));
    assert!(!s.can_abort_results(&t));
    let copy = t.mem.duplicate();
    assert_eq!(copy.read_bytes(0x1100, 4), Some(vec![9, 9, 9, 9]));
}

#[test]
fn pointer_in_memory_leads_to_the_parameter() {
    let mut t = task(SupportedArch::X86);
    assert!(t.mem.write_bytes(0x1100, &vec![0x40, 0x12, 0, 0, 0xff, 0xff, 0xff, 0xff]));
    t.regs.set_arg(1, 0x1100);
    let mut s = entered(&t);
    s.reg_parameter(1, 8, Some(ArgMode::In), false);
    // On x86 the pointer has four bytes.
    assert_eq!(s.mem_ptr_parameter_inferred(&t, 0x1100, 4, None, false), 0x1240);
    assert_eq!(s.param_list[1].dest, 0x1240);
    assert_eq!(s.param_list[1].ptr_in_memory, 0x1100);
    assert_eq!(s.param_list[1].ptr_in_reg, 0);
    assert_eq!(s.param_list[1].scratch, SCRATCH + 8);
    // A null address of the pointer, and a null pointer, register nothing.
    assert_eq!(s.mem_ptr_parameter(&t, 0, 4, None, false), 0);
    assert!(t.mem.write_bytes(0x1100, &vec![0, 0, 0, 0]));
    assert_eq!(s.mem_ptr_parameter(&t, 0x1100, 4, None, false), 0);
    assert_eq!(s.param_list.len(), 2);
}

#[test]
fn results_are_processed_before_the_actions_are_handed_out() {
    let mut t = task(SupportedArch::X64);
    t.regs.set_arg(1, 0x1100);
    let mut s = entered(&t);
    s.reg_parameter(1, 8, None, false);
    s.emulate_result(42);
    s.after_syscall_action(11);
    s.after_syscall_action(12);
    s.done_preparing(&mut t, Switchable::PreventSwitch, &Vec::new());
    t.regs.set_syscall_result(5);
    assert_eq!(s.process_syscall_results(&mut t), vec![11, 12]);
    // The result register is final when the actions are to be done.
    assert_eq!(t.regs.syscall_result(), 42);
    assert_eq!(s.after_syscall_actions, vec![11, 12]);
    // Nothing registered, nothing to do.
    let mut t = task(SupportedArch::X64);
    let mut s = entered(&t);
    s.done_preparing(&mut t, Switchable::PreventSwitch, &Vec::new());
    assert!(s.process_syscall_results(&mut t).is_empty());
}
