use rd::address_space::MemoryRange;
use rd::fast_forward::{
    at_x86_string_instruction, decode_x86_string_instruction, fast_forward_through_instruction,
    maybe_at_or_after_x86_string_instruction, DecodedInstruction, FastForwardPlan,
    FastForwardStatus,
};
use rd::kernel_abi::SupportedArch;
use rd::registers::Registers;

/// The plan where no memory is watched and no breakpoint is set.
fn plan_for(
    regs: &Registers,
    insn: Option<DecodedInstruction>,
    states: &Vec<Registers>,
) -> FastForwardPlan {
    fast_forward_through_instruction(regs, insn, states, &Vec::new(), &Vec::new())
}

#[test]
fn status_starts_empty() {
    let s = FastForwardStatus::new();
    assert!(!s.did_fast_forward);
    assert!(!s.incomplete_fast_forward);
    assert_eq!(s, FastForwardStatus::default());
}

#[test]
fn repeated_string_instructions_are_decoded() {
    // rep movsb
    assert_eq!(
        decode_x86_string_instruction(&vec![0xf3, 0xa4, 0x90], SupportedArch::X64),
        Some(DecodedInstruction { operand_size: 1, length: 2, modifies_flags: false, uses_si: true })
    );
    // rep movsq
    assert_eq!(
        decode_x86_string_instruction(&vec![0xf3, 0x48, 0xa5], SupportedArch::X64),
        Some(DecodedInstruction { operand_size: 8, length: 3, modifies_flags: false, uses_si: true })
    );
    // rep stosw
    assert_eq!(
        decode_x86_string_instruction(&vec![0x66, 0xf3, 0xab], SupportedArch::X86),
        Some(DecodedInstruction { operand_size: 2, length: 3, modifies_flags: false, uses_si: false })
    );
    // rep stosd
    assert_eq!(
        decode_x86_string_instruction(&vec![0xf3, 0xab], SupportedArch::X86),
        Some(DecodedInstruction { operand_size: 4, length: 2, modifies_flags: false, uses_si: false })
    );
    // repne scasb, repe cmpsd
    assert_eq!(
        decode_x86_string_instruction(&vec![0xf2, 0xae], SupportedArch::X64),
        Some(DecodedInstruction { operand_size: 1, length: 2, modifies_flags: true, uses_si: false })
    );
    assert_eq!(
        decode_x86_string_instruction(&vec![0xf3, 0x67, 0xa7], SupportedArch::X64),
        Some(DecodedInstruction { operand_size: 4, length: 3, modifies_flags: true, uses_si: true })
    );
}

#[test]
fn other_instructions_are_not() {
    // movsb without a repeat prefix.
    assert!(!at_x86_string_instruction(&vec![0xa4], SupportedArch::X64));
    // A REX.W prefix is none on x86.
    assert!(!at_x86_string_instruction(&vec![0xf3, 0x48, 0xa5], SupportedArch::X86));
    // Prefixes and nothing behind them; no bytes; a nop.
    assert!(!at_x86_string_instruction(&vec![0xf3, 0x66], SupportedArch::X64));
    assert!(!at_x86_string_instruction(&Vec::new(), SupportedArch::X64));
    assert!(!at_x86_string_instruction(&vec![0xf3, 0x90], SupportedArch::X64));
    assert!(at_x86_string_instruction(&vec![0xf3, 0xaa], SupportedArch::X64));
    // 0xa8 and 0xa9 are `test`, not string instructions.
    assert!(!at_x86_string_instruction(&vec![0xf3, 0xa8], SupportedArch::X64));
    assert!(!at_x86_string_instruction(&vec![0xf3, 0xa9], SupportedArch::X64));
}

#[test]
fn instruction_before_the_instruction_pointer_counts() {
    let nop = vec![0x90];
    assert!(maybe_at_or_after_x86_string_instruction(&vec![0xf3, 0xa4], &Vec::new(), SupportedArch::X64));
    assert!(maybe_at_or_after_x86_string_instruction(&nop, &vec![0x90, 0xf3, 0xa4], SupportedArch::X64));
    assert!(maybe_at_or_after_x86_string_instruction(&nop, &vec![0xf3, 0x48, 0xa5], SupportedArch::X64));
    assert!(!maybe_at_or_after_x86_string_instruction(&nop, &vec![0xf3, 0xa4, 0x90], SupportedArch::X64));
    assert!(!maybe_at_or_after_x86_string_instruction(&nop, &vec![0xa4], SupportedArch::X64));
    assert!(!maybe_at_or_after_x86_string_instruction(&nop, &Vec::new(), SupportedArch::X64));
}

fn movsb() -> DecodedInstruction {
    DecodedInstruction { operand_size: 1, length: 2, modifies_flags: false, uses_si: true }
}

fn regs_with_count(cx: u64) -> Registers {
    let mut regs = Registers::new(SupportedArch::X64);
    regs.cx = cx;
    regs.si = 0x1000;
    regs.di = 0x2000;
    regs
}

#[test]
fn all_iterations_but_the_last_are_run_together() {
    let plan = plan_for(&regs_with_count(100), Some(movsb()), &Vec::new());
    assert_eq!(plan.iterations, 99);
    assert!(plan.status.did_fast_forward);
    assert!(!plan.status.incomplete_fast_forward);
}

#[test]
fn plain_single_step_where_nothing_is_to_be_gained() {
    let plain = FastForwardStatus::new();
    let plan = plan_for(&regs_with_count(100), None, &Vec::new());
    assert_eq!((plan.iterations, plan.status), (1, plain));
    for cx in [0, 1, 2] {
        let plan = plan_for(&regs_with_count(cx), Some(movsb()), &Vec::new());
        assert_eq!((plan.iterations, plan.status), (1, plain));
    }
    let scasb = DecodedInstruction { operand_size: 1, length: 2, modifies_flags: true, uses_si: false };
    let plan = plan_for(&regs_with_count(100), Some(scasb), &Vec::new());
    assert_eq!((plan.iterations, plan.status), (1, plain));
    let plan = plan_for(&regs_with_count(3), Some(movsb()), &Vec::new());
    assert_eq!(plan.iterations, 2);
}

#[test]
fn watched_state_is_not_passed() {
    let regs = regs_with_count(100);
    // The state after 40 iterations.
    let mut target = regs;
    target.cx = 60;
    target.si = 0x1000 + 40;
    target.di = 0x2000 + 40;
    let plan = plan_for(&regs, Some(movsb()), &vec![target]);
    assert_eq!(plan.iterations, 39);
    assert!(plan.status.did_fast_forward);
    assert!(plan.status.incomplete_fast_forward);
    // A state that the task does not pass through does not matter.
    let mut elsewhere = target;
    elsewhere.di = 0x3000;
    let plan = plan_for(&regs, Some(movsb()), &vec![elsewhere]);
    assert_eq!(plan.iterations, 99);
    // A state right ahead leaves a plain single step.
    let mut next = regs;
    next.cx = 98;
    next.si = 0x1002;
    next.di = 0x2002;
    let plan = plan_for(&regs, Some(movsb()), &vec![next]);
    assert_eq!((plan.iterations, plan.status), (1, FastForwardStatus::new()));
}

#[test]
fn pointers_move_down_with_the_direction_flag() {
    let mut regs = regs_with_count(10);
    regs.flags = 0x400;
    let movsq = DecodedInstruction { operand_size: 8, length: 3, modifies_flags: false, uses_si: true };
    let mut target = regs;
    target.cx = 6;
    target.si = 0x1000 - 32;
    target.di = 0x2000 - 32;
    let plan = plan_for(&regs, Some(movsq), &vec![target]);
    assert_eq!(plan.iterations, 3);
    // stos does not move si.
    let stosq = DecodedInstruction { operand_size: 8, length: 3, modifies_flags: false, uses_si: false };
    let plan = plan_for(&regs, Some(stosq), &vec![target]);
    assert_eq!(plan.iterations, 9);
    target.si = regs.si;
    let plan = plan_for(&regs, Some(stosq), &vec![target]);
    assert_eq!(plan.iterations, 3);
}

#[test]
fn watched_memory_is_not_passed() {
    let regs = regs_with_count(100);
    // Iteration 41 writes to 0x2028, which is watched.
    let watch = vec![MemoryRange { start: 0x2028, end: 0x202c }];
    let plan =
        fast_forward_through_instruction(&regs, Some(movsb()), &Vec::new(), &watch, &Vec::new());
    assert_eq!(plan.iterations, 40);
    assert!(plan.status.did_fast_forward && plan.status.incomplete_fast_forward);
    // Iteration 11 reads from 0x100a, which is watched.
    let watch =
        vec![MemoryRange { start: 0x9000, end: 0x9001 }, MemoryRange::from_range(0x100a, 0x100b)];
    let plan =
        fast_forward_through_instruction(&regs, Some(movsb()), &Vec::new(), &watch, &Vec::new());
    assert_eq!(plan.iterations, 10);
    // An instruction that does not read through si passes what si points at.
    let stosb = DecodedInstruction { operand_size: 1, length: 2, modifies_flags: false, uses_si: false };
    let plan =
        fast_forward_through_instruction(&regs, Some(stosb), &Vec::new(), &watch, &Vec::new());
    assert_eq!(plan.iterations, 99);
    // The first or the second iteration touches watched memory: a plain step.
    for start in [0x2000u64, 0x2001] {
        let watch = vec![MemoryRange { start, end: start + 1 }];
        let plan =
            fast_forward_through_instruction(&regs, Some(movsb()), &Vec::new(), &watch, &Vec::new());
        assert_eq!((plan.iterations, plan.status), (1, FastForwardStatus::new()));
    }
    // A range that ends where the copy begins, or is empty, is not touched.
    let watch = vec![
        MemoryRange { start: 0x1ff0, end: 0x2000 },
        MemoryRange { start: 0x2010, end: 0x2010 },
    ];
    let plan =
        fast_forward_through_instruction(&regs, Some(movsb()), &Vec::new(), &watch, &Vec::new());
    assert_eq!(plan.iterations, 99);
    // An element of eight bytes reaches into a range that begins inside it.
    let movsq = DecodedInstruction { operand_size: 8, length: 3, modifies_flags: false, uses_si: true };
    let watch = vec![MemoryRange { start: 0x2000 + 8 * 5 + 7, end: 0x2000 + 8 * 5 + 8 }];
    let plan =
        fast_forward_through_instruction(&regs, Some(movsq), &Vec::new(), &watch, &Vec::new());
    assert_eq!(plan.iterations, 5);
}

#[test]
fn breakpoint_at_the_instruction_leaves_a_plain_single_step() {
    let mut regs = regs_with_count(100);
    regs.ip = 0x4000;
    let plan = fast_forward_through_instruction(
        &regs,
        Some(movsb()),
        &Vec::new(),
        &Vec::new(),
        &vec![0x3000, 0x4000],
    );
    assert_eq!((plan.iterations, plan.status), (1, FastForwardStatus::new()));
    let plan = fast_forward_through_instruction(
        &regs,
        Some(movsb()),
        &Vec::new(),
        &Vec::new(),
        &vec![0x3000, 0x4001],
    );
    assert_eq!(plan.iterations, 99);
}
