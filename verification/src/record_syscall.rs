//! What the recorder does when a task enters a syscall: it looks at the
//! syscall and its arguments, registers the memory the kernel may write,
//! decides whether the task may be switched out while it is in the kernel,
//! and prepares scratch memory. And what it does when the task leaves the
//! syscall: it puts back what it replaced, and records what the kernel
//! wrote.

use crate::byte_codec::u32_le;
use crate::kernel_abi::{
    einval, enosys, is_sigreturn, is_sigreturn_spec, seccomp_mode_filter, seccomp_mode_strict,
    syscall_number, syscall_number_spec, word_size, word_size_spec, KnownSyscall, SupportedArch,
    PR_CAPBSET_DROP, PR_CAPBSET_READ, PR_CAP_AMBIENT, PR_GET_CHILD_SUBREAPER, PR_GET_DUMPABLE,
    PR_GET_ENDIAN, PR_GET_FPEMU, PR_GET_FPEXC, PR_GET_KEEPCAPS, PR_GET_NAME, PR_GET_NO_NEW_PRIVS,
    PR_GET_PDEATHSIG, PR_GET_SECCOMP, PR_GET_SPECULATION_CTRL, PR_GET_TIMERSLACK, PR_GET_TSC,
    PR_GET_UNALIGN, PR_MCE_KILL, PR_MCE_KILL_GET, PR_SET_CHILD_SUBREAPER, PR_SET_DUMPABLE,
    PR_SET_KEEPCAPS, PR_SET_NAME, PR_SET_NO_NEW_PRIVS, PR_SET_PDEATHSIG, PR_SET_PTRACER,
    PR_SET_SECCOMP, PR_SET_SPECULATION_CTRL, PR_SET_TIMERSLACK, PR_SET_TSC, PR_TSC_ENABLE,
    PR_TSC_SIGSEGV, SECCOMP_SET_MODE_FILTER, SECCOMP_SET_MODE_STRICT,
};
use crate::param_size::{capped_size, ArgMode, ParamSize};
use crate::record_task::{RecordTask, RecordTaskView, Switchable};
use crate::registers::{
    signed32, to_signed32, to_unsigned32, to_unsigned64, unsigned32, unsigned64, Registers, WORD32,
};
use crate::seccomp_filter_rewriter::SECCOMP_MAGIC_SKIP_ORIGINAL_SYSCALLNO;
use crate::task_syscall_state::{
    actual_sizes, unmutated, AfterSyscallAction, MemoryParam, SyscallStateView, TaskSyscallState,
};
use crate::tracee_memory::{mem_mapped, mem_write, MemImage};
use vstd::prelude::*;

verus! {

/// What the recorder does about a syscall when the task enters it.
pub struct EntryEffect {
    /// The kernel is kept from running the syscall: the task's first
    /// argument becomes -1.
    pub veto: bool,
    /// The result that the task sees in place of the syscall's.
    pub emulated: Option<u64>,
    /// The errno with which the syscall must fail.
    pub expect_errno: Option<i32>,
    /// The thread group's new dumpable flag.
    pub dumpable: Option<bool>,
    /// The task's new TSC mode.
    pub tsc_mode: Option<i32>,
    /// The memory that the second argument points to and the kernel writes:
    /// its size and how it is registered.
    pub param: Option<(usize, Option<ArgMode>)>,
    /// The task's TSC mode is stored where the second argument points.
    pub store_tsc: bool,
}

/// No effect at all.
pub open spec fn no_effect() -> EntryEffect {
    EntryEffect {
        veto: false,
        emulated: None,
        expect_errno: None,
        dumpable: None,
        tsc_mode: None,
        param: None,
        store_tsc: false,
    }
}

/// What the recorder does about `prctl(option, arg2, ..)` made by `t`.
#[verifier::opaque]
pub open spec fn prctl_effect(option: u32, arg2: u64, t: RecordTaskView) -> EntryEffect {
    if option == PR_GET_CHILD_SUBREAPER || option == PR_GET_ENDIAN || option == PR_GET_FPEMU
        || option == PR_GET_FPEXC || option == PR_GET_PDEATHSIG || option == PR_GET_UNALIGN {
        EntryEffect { param: Some((4usize, None)), ..no_effect() }
    } else if option == PR_GET_KEEPCAPS || option == PR_GET_NO_NEW_PRIVS || option
        == PR_GET_TIMERSLACK || option == PR_MCE_KILL || option == PR_MCE_KILL_GET || option
        == PR_SET_CHILD_SUBREAPER || option == PR_SET_KEEPCAPS || option == PR_SET_NAME || option
        == PR_SET_PDEATHSIG || option == PR_SET_TIMERSLACK || option == PR_CAP_AMBIENT || option
        == PR_CAPBSET_DROP || option == PR_CAPBSET_READ || option == PR_GET_SPECULATION_CTRL
        || option == PR_SET_SPECULATION_CTRL {
        no_effect()
    } else if option == PR_SET_DUMPABLE {
        // A task that makes itself undumpable can no longer be profiled, so
        // it is only told that it did.
        if arg2 == 0 {
            EntryEffect { veto: true, emulated: Some(0u64), dumpable: Some(false), ..no_effect() }
        } else if arg2 == 1 {
            EntryEffect { dumpable: Some(true), ..no_effect() }
        } else {
            no_effect()
        }
    } else if option == PR_GET_DUMPABLE {
        EntryEffect {
            emulated: Some(
                if t.dumpable {
                    1u64
                } else {
                    0u64
                },
            ),
            ..no_effect()
        }
    } else if option == PR_GET_SECCOMP {
        EntryEffect {
            emulated: Some(unsigned64(t.prctl_seccomp_status as i64)),
            ..no_effect()
        }
    } else if option == PR_GET_TSC {
        EntryEffect {
            veto: true,
            emulated: Some(0u64),
            param: Some((4usize, Some(ArgMode::InOutNoScratch))),
            store_tsc: true,
            ..no_effect()
        }
    } else if option == PR_SET_TSC {
        let val = signed32(arg2);
        if val != PR_TSC_ENABLE && val != PR_TSC_SIGSEGV {
            EntryEffect { veto: true, emulated: Some(unsigned64(-22i64)), ..no_effect() }
        } else {
            EntryEffect {
                veto: true,
                emulated: Some(0u64),
                tsc_mode: Some(val as i32),
                ..no_effect()
            }
        }
    } else if option == PR_GET_NAME {
        EntryEffect { param: Some((16usize, None)), ..no_effect() }
    } else if option == PR_SET_NO_NEW_PRIVS {
        if arg2 != 1 {
            EntryEffect { expect_errno: Some(22i32), ..no_effect() }
        } else {
            no_effect()
        }
    } else if option == PR_SET_SECCOMP {
        let mode = arg2 % WORD32;
        if mode == 1 {
            no_effect()
        } else if mode == 2 {
            // Before the first exec this is the recorder's own filter, which
            // is installed as it is. Later the installation is held back and
            // done with a patched filter.
            EntryEffect { veto: t.done_initial_exec, ..no_effect() }
        } else {
            EntryEffect { expect_errno: Some(22i32), ..no_effect() }
        }
    } else if option == PR_SET_PTRACER {
        // Nobody else traces the task, but the task is told that it
        // succeeded.
        EntryEffect { veto: true, emulated: Some(0u64), ..no_effect() }
    } else {
        EntryEffect { expect_errno: Some(22i32), ..no_effect() }
    }
}

/// What the recorder does about `seccomp(operation, ..)`: the installation
/// of a filter is held back, to be done with a patched filter when the
/// syscall exits; strict mode is let through; anything else must fail.
pub open spec fn seccomp_effect(operation: u32) -> EntryEffect {
    if operation == SECCOMP_SET_MODE_STRICT {
        no_effect()
    } else if operation == SECCOMP_SET_MODE_FILTER {
        EntryEffect { veto: true, ..no_effect() }
    } else {
        EntryEffect { expect_errno: Some(22i32), ..no_effect() }
    }
}

/// The state once the scalar parts of `effect` are noted: the entry
/// registers, the expected errno and the emulated result.
pub open spec fn noted(state: SyscallStateView, regs: Registers, effect: EntryEffect)
    -> SyscallStateView {
    SyscallStateView {
        syscall_entry_registers: regs,
        expect_errno: if effect.expect_errno is Some {
            effect.expect_errno->Some_0
        } else {
            state.expect_errno
        },
        should_emulate_result: state.should_emulate_result || effect.emulated is Some,
        emulated_result: if effect.emulated is Some {
            effect.emulated->Some_0
        } else {
            state.emulated_result
        },
        ..state
    }
}

/// What carrying out `effect` needs.
pub open spec fn effect_ready(
    t: RecordTaskView,
    state: SyscallStateView,
    regs: Registers,
    effect: EntryEffect,
) -> bool {
    &&& effect.emulated is Some ==> !state.preparation_done && !state.should_emulate_result
    &&& effect.param is Some ==> state.scratch + effect.param->Some_0.0 + 7 <= u64::MAX
    &&& effect.store_tsc ==> mem_mapped(t.mem, regs.arg_spec(2) as int, 4)
}

/// How `effect` changes the task and the state of its syscall.
pub open spec fn effect_applied(
    t0: RecordTaskView,
    s0: SyscallStateView,
    regs: Registers,
    effect: EntryEffect,
    t1: RecordTaskView,
    s1: SyscallStateView,
) -> bool {
    let dest = if effect.param is Some && !s0.preparation_done {
        regs.arg_spec(2)
    } else {
        0
    };
    &&& t1.regs == if effect.veto {
        regs.with_arg(1, u64::MAX)
    } else {
        t0.regs
    }
    &&& t1.dumpable == if effect.dumpable is Some {
        effect.dumpable->Some_0
    } else {
        t0.dumpable
    }
    &&& t1.tsc_mode == if effect.tsc_mode is Some {
        effect.tsc_mode->Some_0
    } else {
        t0.tsc_mode
    }
    &&& t1.mem == if effect.store_tsc {
        mem_write(t0.mem, regs.arg_spec(2) as int, u32_le(unsigned32(t0.tsc_mode)))
    } else {
        t0.mem
    }
    &&& t1 == (RecordTaskView {
        regs: t1.regs,
        dumpable: t1.dumpable,
        tsc_mode: t1.tsc_mode,
        mem: t1.mem,
        ..t0
    })
    &&& if effect.param is Some {
        SyscallStateView::registration(
            noted(s0, regs, effect),
            s1,
            dest,
            ParamSize::fixed(effect.param->Some_0.0),
            effect.param->Some_0.1,
            false,
            2,
            0,
        )
    } else {
        s1 == noted(s0, regs, effect)
    }
}

/// Prepare `t` to enter a `prctl` call with the registers `regs`.
pub fn rec_prepare_prctl(t: &mut RecordTask, state: &mut TaskSyscallState, regs: &Registers)
    requires
        old(state)@.wf(),
        old(state).syscall_entry_registers == *regs,
        effect_ready(
            old(t)@,
            old(state)@,
            *regs,
            prctl_effect((regs.arg_spec(1) % WORD32) as u32, regs.arg_spec(2), old(t)@),
        ),
    ensures
        final(state)@.wf(),
        effect_applied(
            old(t)@,
            old(state)@,
            *regs,
            prctl_effect((regs.arg_spec(1) % WORD32) as u32, regs.arg_spec(2), old(t)@),
            final(t)@,
            final(state)@,
        ),
{
    let option: u32 = (regs.arg1() % WORD32) as u32;
    let arg2: u64 = regs.arg2();
    proof {
        reveal(prctl_effect);
    }
    if option == PR_GET_CHILD_SUBREAPER || option == PR_GET_ENDIAN || option == PR_GET_FPEMU
        || option == PR_GET_FPEXC || option == PR_GET_PDEATHSIG || option == PR_GET_UNALIGN {
        state.reg_parameter(2, 4, None, false);
    } else if option == PR_GET_KEEPCAPS || option == PR_GET_NO_NEW_PRIVS || option
        == PR_GET_TIMERSLACK || option == PR_MCE_KILL || option == PR_MCE_KILL_GET || option
        == PR_SET_CHILD_SUBREAPER || option == PR_SET_KEEPCAPS || option == PR_SET_NAME || option
        == PR_SET_PDEATHSIG || option == PR_SET_TIMERSLACK || option == PR_CAP_AMBIENT || option
        == PR_CAPBSET_DROP || option == PR_CAPBSET_READ || option == PR_GET_SPECULATION_CTRL
        || option == PR_SET_SPECULATION_CTRL {
    } else if option == PR_SET_DUMPABLE {
        if arg2 == 0 {
            let mut r: Registers = *regs;
            r.set_arg1_signed_minus_one();
            t.regs = r;
            state.emulate_result(0);
            t.dumpable = false;
        } else if arg2 == 1 {
            t.dumpable = true;
        }
    } else if option == PR_GET_DUMPABLE {
        state.emulate_result(
            if t.dumpable {
                1
            } else {
                0
            },
        );
    } else if option == PR_GET_SECCOMP {
        state.emulate_result(to_unsigned64(t.prctl_seccomp_status as i64));
    } else if option == PR_GET_TSC {
        let mut r: Registers = *regs;
        r.set_arg1_signed_minus_one();
        t.regs = r;
        state.emulate_result(0);
        let child_addr: u64 = state.reg_parameter(2, 4, Some(ArgMode::InOutNoScratch), false);
        let mut bytes: Vec<u8> = Vec::new();
        crate::byte_codec::push_le_u32(&mut bytes, to_unsigned32(t.tsc_mode));
        assert(bytes@ =~= u32_le(unsigned32(t.tsc_mode)));
        let ok = t.mem.write_bytes(child_addr, &bytes);
        assert(ok);
    } else if option == PR_SET_TSC {
        let mut r: Registers = *regs;
        r.set_arg1_signed_minus_one();
        t.regs = r;
        let val: i64 = to_signed32(arg2);
        if val != PR_TSC_ENABLE as i64 && val != PR_TSC_SIGSEGV as i64 {
            state.emulate_result_signed(-(einval() as i64));
        } else {
            state.emulate_result(0);
            t.tsc_mode = val as i32;
        }
    } else if option == PR_GET_NAME {
        state.reg_parameter_with_size(2, ParamSize::from_size(16), None, false);
    } else if option == PR_SET_NO_NEW_PRIVS {
        if arg2 != 1 {
            state.expect_errno = einval();
        }
    } else if option == PR_SET_SECCOMP {
        let mode: u32 = (arg2 % WORD32) as u32;
        if mode == seccomp_mode_strict() {
        } else if mode == seccomp_mode_filter() {
            if t.done_initial_exec {
                let mut r: Registers = *regs;
                r.set_arg1_signed_minus_one();
                t.regs = r;
            }
        } else {
            state.expect_errno = einval();
        }
    } else if option == PR_SET_PTRACER {
        let mut r: Registers = *regs;
        r.set_arg1_signed_minus_one();
        t.regs = r;
        state.emulate_result(0);
    } else {
        state.expect_errno = einval();
    }
}

/// Memory that a `prctl` call writes is registered as an output of at most
/// 16 bytes, in place or by default.
pub proof fn lemma_prctl_effect_param(option: u32, arg2: u64, t: RecordTaskView)
    ensures
        ({
            let effect = prctl_effect(option, arg2, t);
            effect.param is Some ==> effect.param->Some_0.0 <= 16 && (effect.param->Some_0.1
                is None || effect.param->Some_0.1 == Some(ArgMode::InOutNoScratch))
        }),
{
    reveal(prctl_effect);
}

/// How a syscall entry is prepared.
#[derive(Clone, Copy, Debug, PartialEq, Eq, Structural)]
pub enum EntryKind {
    /// The recorder vetoed the syscall: nothing is prepared.
    Vetoed,
    /// The task was descheduled in a buffered syscall, whose buffer serves as
    /// scratch memory.
    Desched,
    /// The syscall number is negative: the kernel will refuse it.
    Invalid,
    /// `prctl`.
    Prctl,
    /// `seccomp`.
    Seccomp,
    /// Any other syscall: it has no handler here.
    Other,
}

/// How the entry of `t` into its current syscall is prepared.
pub open spec fn entry_kind(t: RecordTaskView) -> EntryKind {
    let syscallno = t.syscall_event.number;
    if t.regs.original_syscallno_spec() == SECCOMP_MAGIC_SKIP_ORIGINAL_SYSCALLNO {
        EntryKind::Vetoed
    } else if t.desched_rec != 0 {
        EntryKind::Desched
    } else if syscallno < 0 {
        EntryKind::Invalid
    } else if syscallno == syscall_number_spec(KnownSyscall::Prctl, t.syscall_event.arch) {
        EntryKind::Prctl
    } else if syscallno == syscall_number_spec(KnownSyscall::Seccomp, t.syscall_event.arch) {
        EntryKind::Seccomp
    } else {
        EntryKind::Other
    }
}

/// How the entry of `t` into its current syscall is prepared.
pub fn syscall_entry_kind(t: &RecordTask) -> (r: EntryKind)
    ensures
        r == entry_kind(t@),
{
    let syscallno: i32 = t.syscall_event.number;
    if t.regs.original_syscallno() == SECCOMP_MAGIC_SKIP_ORIGINAL_SYSCALLNO {
        EntryKind::Vetoed
    } else if t.desched_rec != 0 {
        EntryKind::Desched
    } else if syscallno < 0 {
        EntryKind::Invalid
    } else if syscallno == syscall_number(KnownSyscall::Prctl, t.syscall_event.arch) {
        EntryKind::Prctl
    } else if syscallno == syscall_number(KnownSyscall::Seccomp, t.syscall_event.arch) {
        EntryKind::Seccomp
    } else {
        EntryKind::Other
    }
}

/// The descheduled syscall is a `read` into the task's scratch buffer: its
/// block-cloning path was interrupted, and what it read has to be recorded
/// from the scratch buffer.
pub open spec fn is_interrupted_scratch_read(t: RecordTaskView, regs: Registers) -> bool {
    t.syscall_event.number == syscall_number_spec(KnownSyscall::Read, t.syscall_event.arch)
        && regs.arg_spec(2) == t.scratch_ptr
}

/// What `rec_prepare_syscall_arch` needs.
pub open spec fn entry_ready(t: RecordTaskView, state: SyscallStateView, regs: Registers) -> bool {
    let noted = SyscallStateView { syscall_entry_registers: regs, ..state };
    &&& state.wf()
    &&& match entry_kind(t) {
        EntryKind::Vetoed => true,
        EntryKind::Desched => is_interrupted_scratch_read(t, regs) ==> state.scratch <= u64::MAX
            - 0x7fff_ffff - 7,
        EntryKind::Invalid => true,
        EntryKind::Prctl => effect_ready(
            t,
            noted,
            regs,
            prctl_effect((regs.arg_spec(1) % WORD32) as u32, regs.arg_spec(2), t),
        ),
        EntryKind::Seccomp => true,
        EntryKind::Other => false,
    }
}

/// What preparing the entry of `t0` into its syscall does to the task and to
/// the state of its syscall, and what it answers.
pub open spec fn entry_prepared(
    t0: RecordTaskView,
    s0: SyscallStateView,
    regs: Registers,
    r: Switchable,
    t1: RecordTaskView,
    s1: SyscallStateView,
) -> bool {
    &&& r == if entry_kind(t0) == EntryKind::Desched {
        Switchable::AllowSwitch
    } else {
        Switchable::PreventSwitch
    }
    &&& match entry_kind(t0) {
        EntryKind::Vetoed => t1 == t0 && s1 == s0,
        EntryKind::Desched => {
            &&& t1 == t0
            &&& if is_interrupted_scratch_read(t0, regs) {
                SyscallStateView::registration(
                    SyscallStateView { syscall_entry_registers: regs, ..s0 },
                    s1,
                    if s0.preparation_done {
                        0
                    } else {
                        regs.arg_spec(2)
                    },
                    ParamSize {
                        incoming_size: capped_size(regs.arg_spec(3) as int),
                        mem_ptr: 0,
                        read_size: word_size_spec(t0.syscall_event.arch),
                        from_syscall: true,
                    },
                    Some(ArgMode::InOutNoScratch),
                    false,
                    2,
                    0,
                )
            } else {
                s1 == (SyscallStateView { syscall_entry_registers: regs, ..s0 })
            }
        },
        EntryKind::Invalid => t1 == t0 && s1 == (SyscallStateView {
            syscall_entry_registers: regs,
            expect_errno: 38,
            ..s0
        }),
        EntryKind::Prctl => effect_applied(
            t0,
            SyscallStateView { syscall_entry_registers: regs, ..s0 },
            regs,
            prctl_effect((regs.arg_spec(1) % WORD32) as u32, regs.arg_spec(2), t0),
            t1,
            s1,
        ),
        EntryKind::Seccomp => effect_applied(
            t0,
            SyscallStateView { syscall_entry_registers: regs, ..s0 },
            regs,
            seccomp_effect((regs.arg_spec(1) % WORD32) as u32),
            t1,
            s1,
        ),
        EntryKind::Other => true,
    }
}

/// Prepare `t` to enter its current syscall, seen with the registers `regs`.
/// Returns whether the task may be switched out while it is in the syscall.
///
/// A syscall that the recorder vetoed is left alone. For a task descheduled
/// in a buffered syscall nothing is prepared, unless it is a `read` into the
/// scratch buffer, which is registered in place. A negative syscall number is
/// expected to fail with `ENOSYS`. `prctl` is handled option by option, and
/// `seccomp` operation by operation.
pub fn rec_prepare_syscall_arch(
    t: &mut RecordTask,
    state: &mut TaskSyscallState,
    regs: &Registers,
) -> (r: Switchable)
    requires
        entry_ready(old(t)@, old(state)@, *regs),
    ensures
        final(state)@.wf(),
        final(state)@.preparation_done == old(state)@.preparation_done,
        entry_prepared(old(t)@, old(state)@, *regs, r, final(t)@, final(state)@),
{
    let syscallno: i32 = t.syscall_event.number;
    let arch = t.syscall_event.arch;
    if t.regs.original_syscallno() == SECCOMP_MAGIC_SKIP_ORIGINAL_SYSCALLNO {
        // The recorder vetoed this syscall. Don't do any pre-processing.
        return Switchable::PreventSwitch;
    }
    state.syscall_entry_registers = *regs;
    if t.desched_rec != 0 {
        // The syscallbuf serves as scratch memory for a buffered syscall, and
        // it is too late to set up scratch memory anyway: the task is in the
        // kernel already. What the syscall wrote is recorded from the
        // syscallbuf when it exits.
        if syscallno == syscall_number(KnownSyscall::Read, arch) && regs.arg2() == t.scratch_ptr {
            let arg3: u64 = regs.arg3();
            let incoming: usize = if arg3 > 0x7fff_ffff {
                0x7fff_ffff
            } else {
                arg3 as usize
            };
            state.reg_parameter_with_size(
                2,
                ParamSize::from_syscall_result_with_size(incoming, word_size(arch)),
                Some(ArgMode::InOutNoScratch),
                false,
            );
        }
        return Switchable::AllowSwitch;
    }
    if syscallno < 0 {
        // Invalid syscall. Don't let it accidentally match a syscall number
        // below that's for an undefined syscall.
        state.expect_errno = enosys();
        return Switchable::PreventSwitch;
    }
    if syscallno == syscall_number(KnownSyscall::Prctl, arch) {
        rec_prepare_prctl(t, state, regs);
    } else {
        let operation: u32 = (regs.arg1() % WORD32) as u32;
        if operation == SECCOMP_SET_MODE_STRICT {
        } else if operation == SECCOMP_SET_MODE_FILTER {
            // Prevent the actual seccomp call. It is made with a patched
            // filter when the syscall exits.
            let mut r: Registers = *regs;
            r.set_arg1_signed_minus_one();
            t.regs = r;
        } else {
            state.expect_errno = einval();
        }
    }
    Switchable::PreventSwitch
}

/// Prepare `t` to enter its current syscall, seen as a syscall of the
/// architecture that the task entered it with.
pub fn rec_prepare_syscall_internal(t: &mut RecordTask, state: &mut TaskSyscallState) -> (r:
    Switchable)
    requires
        entry_ready(
            old(t)@,
            old(state)@,
            old(t).regs.converted_spec(old(t).syscall_event.arch),
        ),
    ensures
        final(state)@.wf(),
        final(state)@.preparation_done == old(state)@.preparation_done,
        entry_prepared(
            old(t)@,
            old(state)@,
            old(t).regs.converted_spec(old(t).syscall_event.arch),
            r,
            final(t)@,
            final(state)@,
        ),
{
    let arch: SupportedArch = t.syscall_event.arch;
    let regs: Registers = t.regs.converted(arch);
    rec_prepare_syscall_arch(t, state, &regs)
}

/// What preparing a syscall entry leaves alone: who the task is, where its
/// scratch buffer is, which syscall it is in, and what the state says of a
/// finished preparation.
pub proof fn lemma_entry_keeps(
    t0: RecordTaskView,
    s0: SyscallStateView,
    regs: Registers,
    sw: Switchable,
    t1: RecordTaskView,
    s1: SyscallStateView,
)
    requires
        entry_ready(t0, s0, regs),
        entry_prepared(t0, s0, regs, sw, t1, s1),
    ensures
        t1.tuid == t0.tuid,
        t1.syscall_event == t0.syscall_event,
        t1.scratch_ptr == t0.scratch_ptr,
        t1.usable_scratch_size == t0.usable_scratch_size,
        t1.mem.mapped == t0.mem.mapped,
        s1.tuid == s0.tuid,
        s1.preparation_done == s0.preparation_done,
        s1.write_back == s0.write_back,
        s1.switchable == s0.switchable,
        s1.scratch_enabled == s0.scratch_enabled,
        s1.saved_data == s0.saved_data,
        s1.scratch >= s0.scratch,
        entry_kind(t0) != EntryKind::Desched ==> sw == Switchable::PreventSwitch,
        entry_kind(t0) == EntryKind::Vetoed || entry_kind(t0) == EntryKind::Desched ==> t1 == t0,
{
}

/// A syscall entry prepared from a state without parameters leaves at most
/// one parameter, an output without mutator that no pointer in memory leads
/// to. Preparing scratch memory for it then moves nothing.
pub proof fn lemma_entry_then_preparing(
    t0: RecordTaskView,
    s0: SyscallStateView,
    regs: Registers,
    sw: Switchable,
    t1: RecordTaskView,
    s1: SyscallStateView,
)
    requires
        entry_ready(t0, s0, regs),
        entry_prepared(t0, s0, regs, sw, t1, s1),
        s0.tuid == t0.tuid,
        s0.params.len() == 0,
        !s0.preparation_done,
        t0.scratch_ptr != 0 ==> s0.scratch >= t0.scratch_ptr,
        s1.wf(),
    ensures
        s1.can_finish_preparing(t1, sw, Seq::empty()),
        s1.prepared_params(t1, sw) == s1.params,
        s1.prepared_memory(t1, sw) == t1.mem,
        s1.prepared_regs(t1, sw) == t1.regs,
        crate::task_syscall_state::after_mutators(s1.params, Seq::empty()) == s1.params,
        crate::task_syscall_state::mutated(
            s1.params,
            s1.prepared_scratch(t1, sw),
            Seq::empty(),
            t1.mem,
            s1.saved_data,
            s1.params.len() as int,
        ) == (t1.mem, s1.saved_data),
{
    lemma_entry_keeps(t0, s0, regs, sw, t1, s1);
    lemma_prctl_effect_param((regs.arg_spec(1) % WORD32) as u32, regs.arg_spec(2), t0);
    let params = s1.params;
    let none = Seq::<Option<Vec<u8>>>::empty();
    assert(params.len() <= 1);
    assert forall|i: int| 0 <= i < params.len() implies !(#[trigger] params[i]).has_mutator
        && params[i].ptr_in_memory == 0 && params[i].num_bytes.mem_ptr == 0
        && !params[i].is_input() && (sw == Switchable::AllowSwitch ==> params[i].ptr_in_reg
        == 0) by {}
    assert(crate::task_syscall_state::after_mutators(params, none) =~= params);
    reveal_with_fuel(crate::task_syscall_state::mutated, 3);
    if s1.will_enable_scratch(t1, sw) {
        reveal_with_fuel(crate::task_syscall_state::copied_in, 3);
        reveal_with_fuel(crate::task_syscall_state::redirected_regs, 3);
        reveal_with_fuel(crate::task_syscall_state::redirected_pointers, 3);
        assert(crate::task_syscall_state::with_relocated_sizes(params) =~= params);
    }
}

/// What is known of a syscall, as a view.
pub open spec fn known_state(state: Option<TaskSyscallState>) -> Option<SyscallStateView> {
    match state {
        Some(s) => Some(s@),
        None => None,
    }
}

/// The state that `rec_prepare_syscall` starts from: the given one, or a new
/// one that allocates at the task's scratch buffer.
pub open spec fn starting_state(t: RecordTaskView, state: Option<SyscallStateView>)
    -> SyscallStateView {
    match state {
        None => SyscallStateView { scratch: t.scratch_ptr, ..SyscallStateView::fresh(t.tuid) },
        Some(given) => given,
    }
}

/// What `rec_prepare_syscall` needs: a syscall that has a handler here, and
/// a state that is new, or already prepared, or holds no parameter yet.
pub open spec fn syscall_ready(t: RecordTaskView, state: Option<SyscallStateView>) -> bool {
    let s = starting_state(t, state);
    &&& s.tuid == t.tuid
    &&& entry_ready(t, s, t.regs.converted_spec(t.syscall_event.arch))
    &&& !s.preparation_done ==> s.params.len() == 0 && (t.scratch_ptr != 0 ==> s.scratch
        >= t.scratch_ptr)
}

/// Prepare `t` to enter its current syscall. `state` is what is known of the
/// syscall: `None` if the task enters it for the first time. Returns whether
/// the task may be switched out, and the state to keep for the syscall's
/// exit; a `sigreturn` has no exit, so no state is kept for it.
///
/// The syscall is first prepared as `rec_prepare_syscall_internal` says.
/// Unless it was prepared before, it is then marked as prepared, with the
/// answer to whether the task may be switched out, and with scratch memory on
/// if the task may be switched out, has a scratch buffer, and a parameter was
/// registered.
pub fn rec_prepare_syscall(t: &mut RecordTask, state: Option<TaskSyscallState>) -> (r: (
    Switchable,
    Option<TaskSyscallState>,
))
    requires
        syscall_ready(old(t)@, known_state(state)),
    ensures
        ({
            let s0 = starting_state(old(t)@, known_state(state));
            let regs = old(t).regs.converted_spec(old(t).syscall_event.arch);
            let sw = if entry_kind(old(t)@) == EntryKind::Desched {
                Switchable::AllowSwitch
            } else {
                Switchable::PreventSwitch
            };
            if is_sigreturn_spec(old(t).syscall_event.number, old(t).syscall_event.arch) {
                r.0 == sw && r.1 is None && final(t)@ == old(t)@
            } else {
                &&& r.1 is Some
                &&& r.1->Some_0@.wf()
                &&& if s0.preparation_done {
                    &&& r.0 == s0.switchable
                    &&& entry_prepared(old(t)@, s0, regs, sw, final(t)@, r.1->Some_0@)
                } else {
                    let kept = r.1->Some_0@;
                    let s1 = SyscallStateView {
                        preparation_done: false,
                        write_back: s0.write_back,
                        switchable: s0.switchable,
                        scratch_enabled: s0.scratch_enabled,
                        ..kept
                    };
                    &&& entry_prepared(old(t)@, s0, regs, sw, final(t)@, s1)
                    &&& r.0 == s1.granted(old(t)@, sw)
                    &&& kept.preparation_done
                    &&& kept.write_back == crate::param_size::WriteBack::WriteBack
                    &&& kept.switchable == r.0
                    &&& kept.scratch_enabled == (s0.scratch_enabled || s1.will_enable_scratch(
                        old(t)@,
                        sw,
                    ))
                }
            }
        }),
{
    let mut st: TaskSyscallState = match state {
        Some(s) => s,
        None => {
            let mut fresh = TaskSyscallState::new(t.tuid);
            fresh.init(t);
            fresh
        },
    };
    let ghost s0 = st@;
    assert(s0.params =~= starting_state(old(t)@, known_state(state)).params);
    assert(s0.saved_data =~= starting_state(old(t)@, known_state(state)).saved_data);
    assert(s0 == starting_state(old(t)@, known_state(state)));
    let ghost regs = t.regs.converted_spec(t.syscall_event.arch);
    let sw = rec_prepare_syscall_internal(t, &mut st);
    let ghost s1 = st@;
    proof {
        lemma_entry_keeps(old(t)@, s0, regs, sw, t@, s1);
    }
    if is_sigreturn(t.syscall_event.number, t.syscall_event.arch) {
        // There isn't going to be an exit event for this syscall.
        return (sw, None);
    }
    if st.preparation_done {
        let sw1 = st.switchable;
        return (sw1, Some(st));
    }
    let decisions: Vec<Option<Vec<u8>>> = Vec::new();
    let ghost t1 = t@;
    proof {
        lemma_entry_then_preparing(old(t)@, s0, regs, sw, t1, s1);
    }
    let r = st.done_preparing(t, sw, &decisions);
    proof {
        assert(st@.params =~= s1.params);
        assert(st@.saved_data =~= s1.saved_data);
        assert(t@ == t1);
        assert(s1 == (SyscallStateView {
            preparation_done: false,
            write_back: s0.write_back,
            switchable: s0.switchable,
            scratch_enabled: s0.scratch_enabled,
            ..st@
        }));
    }
    (r, Some(st))
}

/// The recorder kept the task's syscall from running.
pub open spec fn vetoed(t: RecordTaskView) -> bool {
    t.regs.original_syscallno_spec() == SECCOMP_MAGIC_SKIP_ORIGINAL_SYSCALLNO
}

/// What is left to do about seccomp when a syscall has exited.
#[derive(Clone, Copy, Debug, PartialEq, Eq, Structural)]
pub enum ExitAction {
    Nothing,
    /// The syscall was to install a seccomp filter and was held back: make
    /// it now, with the patched filter.
    InstallSeccompFilter,
}

/// What is left to do when a syscall has exited.
pub struct SyscallExit {
    pub action: ExitAction,
    /// The actions that the syscall's handler registered, in the order of
    /// their registration, to be done once each, in that order.
    pub after_syscall_actions: Vec<AfterSyscallAction>,
}

/// The task's syscall is one whose first argument the recorder may have
/// replaced when the task entered it, and the task's registers are of the
/// architecture of the syscall, as they are once an argument was replaced.
pub open spec fn restores_first_argument(t: RecordTaskView, entry: Registers) -> bool {
    (entry_kind(t) == EntryKind::Prctl || entry_kind(t) == EntryKind::Seccomp) && t.regs.arch
        == entry.arch
}

/// The task's syscall was to install a seccomp filter, and the recorder
/// held it back: `seccomp` with the operation that sets a filter, or `prctl`
/// with the option and mode that do, after the first exec.
pub open spec fn installs_seccomp_filter(t: RecordTaskView, entry: Registers) -> bool {
    let arg1 = entry.arg_spec(1) % WORD32;
    let arg2 = entry.arg_spec(2) % WORD32;
    match entry_kind(t) {
        EntryKind::Prctl => arg1 == PR_SET_SECCOMP && arg2 == 2 && t.done_initial_exec,
        EntryKind::Seccomp => arg1 == SECCOMP_SET_MODE_FILTER,
        _ => false,
    }
}

/// The task as it is when the results of its syscall are processed: with
/// the first argument that it entered the syscall with, if the recorder may
/// have replaced it.
pub open spec fn with_entry_argument(t: RecordTaskView, entry: Registers) -> RecordTaskView {
    if restores_first_argument(t, entry) {
        RecordTaskView { regs: t.regs.with_arg(1, entry.arg_spec(1)), ..t }
    } else {
        t
    }
}

/// The sizes of a syscall's parameters depend on its result and on memory,
/// not on its arguments.
pub proof fn lemma_sizes_ignore_arguments(
    params: Seq<MemoryParam>,
    m: MemImage,
    regs: Registers,
    i: int,
    value: u64,
    n: int,
)
    ensures
        actual_sizes(params, m, regs.with_arg(i, value), n) == actual_sizes(params, m, regs, n),
    decreases n,
{
    if n > 0 {
        lemma_sizes_ignore_arguments(params, m, regs, i, value, n - 1);
    }
}

/// Whether the results of the syscall can be processed does not depend on
/// the first argument that the task is seen with.
pub proof fn lemma_entry_argument_keeps_readiness(
    state: SyscallStateView,
    t: RecordTaskView,
    entry: Registers,
)
    ensures
        state.can_process(with_entry_argument(t, entry)) == state.can_process(t),
{
    let n = state.params.len() as int;
    let value = entry.arg_spec(1);
    lemma_sizes_ignore_arguments(state.params, t.mem, t.regs, 1, value, n);
    lemma_sizes_ignore_arguments(
        state.params,
        unmutated(state.params, state.saved_data, t.mem, n),
        t.regs,
        1,
        value,
        n,
    );
}

/// Called when the syscall of `t` has exited. Nothing is done for a syscall
/// that the recorder kept from running altogether. Otherwise the first
/// argument of a `prctl` or `seccomp` call is put back as the task passed it,
/// and the results of the syscall are processed as `process_syscall_results`
/// says. Returns what is left to do: whether to install a seccomp filter,
/// and the actions registered to be done after the syscall.
pub fn rec_process_syscall(t: &mut RecordTask, state: &mut TaskSyscallState) -> (exit: SyscallExit)
    requires
        !vetoed(old(t)@) ==> old(state)@.can_process(old(t)@),
    ensures
        vetoed(old(t)@) ==> exit.action == ExitAction::Nothing && exit.after_syscall_actions@.len()
            == 0 && final(t)@ == old(t)@ && final(state)@ == old(state)@,
        !vetoed(old(t)@) ==> {
            let entry = old(state)@.syscall_entry_registers;
            let at_exit = with_entry_argument(old(t)@, entry);
            &&& exit.action == if installs_seccomp_filter(old(t)@, entry) {
                ExitAction::InstallSeccompFilter
            } else {
                ExitAction::Nothing
            }
            &&& exit.after_syscall_actions@ == old(state)@.after_syscall_actions
            &&& final(t)@ == (RecordTaskView {
                mem: old(state)@.processed_memory(at_exit),
                regs: old(state)@.processed_regs(at_exit),
                trace: old(t)@.trace + old(state)@.processed_records(at_exit),
                ..old(t)@
            })
            &&& final(state)@ == (SyscallStateView {
                saved_data: if old(state)@.scratch_enabled {
                    old(state)@.saved_data
                } else {
                    Seq::empty()
                },
                ..old(state)@
            })
        },
{
    if t.regs.original_syscallno() == SECCOMP_MAGIC_SKIP_ORIGINAL_SYSCALLNO {
        return SyscallExit { action: ExitAction::Nothing, after_syscall_actions: Vec::new() };
    }
    let kind = syscall_entry_kind(t);
    let is_prctl = kind == EntryKind::Prctl;
    let is_seccomp = kind == EntryKind::Seccomp;
    let entry: Registers = state.syscall_entry_registers;
    proof {
        lemma_entry_argument_keeps_readiness(state@, t@, entry);
    }
    if (is_prctl || is_seccomp) && t.regs.arch == entry.arch {
        // Restore the first argument in case it was replaced to keep the
        // kernel from running the call.
        let mut r: Registers = t.regs;
        r.set_arg(1, entry.arg1());
        t.regs = r;
    }
    let arg1: u64 = entry.arg1() % WORD32;
    let arg2: u64 = entry.arg2() % WORD32;
    let install = if is_prctl {
        arg1 == PR_SET_SECCOMP as u64 && arg2 == seccomp_mode_filter() as u64 && t.done_initial_exec
    } else {
        is_seccomp && arg1 == SECCOMP_SET_MODE_FILTER as u64
    };
    let after_syscall_actions = state.process_syscall_results(t);
    assert(state@.saved_data =~= if old(state)@.scratch_enabled {
        old(state)@.saved_data
    } else {
        Seq::empty()
    });
    let action = if install {
        ExitAction::InstallSeccompFilter
    } else {
        ExitAction::Nothing
    };
    SyscallExit { action, after_syscall_actions }
}

/// Called when the syscall of `t` is restarted after an interruption: what
/// was prepared for the interrupted syscall is dropped, and the restarted
/// syscall is prepared afresh when the task enters it.
pub fn rec_prepare_restart_syscall(t: &RecordTask, state: Option<TaskSyscallState>) -> (r: Option<
    TaskSyscallState,
>)
    ensures
        r is None,
{
    None
}

/// What the recorder does about `prctl(option, arg2, ..)` made by `t`.
pub fn compute_prctl_effect(option: u32, arg2: u64, t: &RecordTask) -> (r: EntryEffect)
    ensures
        r == prctl_effect(option, arg2, t@),
{
    proof {
        reveal(prctl_effect);
    }
    let none = EntryEffect {
        veto: false,
        emulated: None,
        expect_errno: None,
        dumpable: None,
        tsc_mode: None,
        param: None,
        store_tsc: false,
    };
    if option == PR_GET_CHILD_SUBREAPER || option == PR_GET_ENDIAN || option == PR_GET_FPEMU
        || option == PR_GET_FPEXC || option == PR_GET_PDEATHSIG || option == PR_GET_UNALIGN {
        EntryEffect { param: Some((4usize, None)), ..none }
    } else if option == PR_GET_KEEPCAPS || option == PR_GET_NO_NEW_PRIVS || option
        == PR_GET_TIMERSLACK || option == PR_MCE_KILL || option == PR_MCE_KILL_GET || option
        == PR_SET_CHILD_SUBREAPER || option == PR_SET_KEEPCAPS || option == PR_SET_NAME || option
        == PR_SET_PDEATHSIG || option == PR_SET_TIMERSLACK || option == PR_CAP_AMBIENT || option
        == PR_CAPBSET_DROP || option == PR_CAPBSET_READ || option == PR_GET_SPECULATION_CTRL
        || option == PR_SET_SPECULATION_CTRL {
        none
    } else if option == PR_SET_DUMPABLE {
        if arg2 == 0 {
            EntryEffect { veto: true, emulated: Some(0u64), dumpable: Some(false), ..none }
        } else if arg2 == 1 {
            EntryEffect { dumpable: Some(true), ..none }
        } else {
            none
        }
    } else if option == PR_GET_DUMPABLE {
        EntryEffect {
            emulated: Some(
                if t.dumpable {
                    1u64
                } else {
                    0u64
                },
            ),
            ..none
        }
    } else if option == PR_GET_SECCOMP {
        EntryEffect { emulated: Some(to_unsigned64(t.prctl_seccomp_status as i64)), ..none }
    } else if option == PR_GET_TSC {
        EntryEffect {
            veto: true,
            emulated: Some(0u64),
            param: Some((4usize, Some(ArgMode::InOutNoScratch))),
            store_tsc: true,
            ..none
        }
    } else if option == PR_SET_TSC {
        let val: i64 = to_signed32(arg2);
        if val != PR_TSC_ENABLE as i64 && val != PR_TSC_SIGSEGV as i64 {
            EntryEffect { veto: true, emulated: Some(to_unsigned64(-22i64)), ..none }
        } else {
            EntryEffect { veto: true, emulated: Some(0u64), tsc_mode: Some(val as i32), ..none }
        }
    } else if option == PR_GET_NAME {
        EntryEffect { param: Some((16usize, None)), ..none }
    } else if option == PR_SET_NO_NEW_PRIVS {
        if arg2 != 1 {
            EntryEffect { expect_errno: Some(22i32), ..none }
        } else {
            none
        }
    } else if option == PR_SET_SECCOMP {
        let mode: u64 = arg2 % WORD32;
        if mode == 1 {
            none
        } else if mode == 2 {
            EntryEffect { veto: t.done_initial_exec, ..none }
        } else {
            EntryEffect { expect_errno: Some(22i32), ..none }
        }
    } else if option == PR_SET_PTRACER {
        EntryEffect { veto: true, emulated: Some(0u64), ..none }
    } else {
        EntryEffect { expect_errno: Some(22i32), ..none }
    }
}

/// Whether `rec_prepare_syscall` can run: whether the syscall has a handler
/// here, and the state is new, or already prepared, or holds no parameter
/// yet.
pub fn is_syscall_ready(t: &RecordTask, state: &Option<TaskSyscallState>) -> (r: bool)
    ensures
        r == syscall_ready(
            t@,
            match *state {
                Some(s) => Some(s@),
                None => None,
            },
        ),
{
    let regs: Registers = t.regs.converted(t.syscall_event.arch);
    let (tuid_ok, wf, preparation_done, should_emulate, scratch, no_params) = match state {
        Some(s) => (
            s.tuid == t.tuid,
            s.is_well_formed(),
            s.preparation_done,
            s.should_emulate_result,
            s.scratch,
            s.param_list.len() == 0,
        ),
        None => {
            assert(SyscallStateView::fresh(t@.tuid).wf());
            (true, true, false, false, t.scratch_ptr, true)
        },
    };
    if !tuid_ok || !wf {
        return false;
    }
    if !preparation_done && !(no_params && (t.scratch_ptr == 0 || scratch >= t.scratch_ptr)) {
        return false;
    }
    match syscall_entry_kind(t) {
        EntryKind::Vetoed | EntryKind::Invalid | EntryKind::Seccomp => true,
        EntryKind::Other => false,
        EntryKind::Desched => {
            let is_read = t.syscall_event.number == syscall_number(
                KnownSyscall::Read,
                t.syscall_event.arch,
            ) && regs.arg2() == t.scratch_ptr;
            !is_read || scratch <= u64::MAX - 0x7fff_ffff - 7
        },
        EntryKind::Prctl => {
            let effect = compute_prctl_effect((regs.arg1() % WORD32) as u32, regs.arg2(), t);
            let emulate_ok = effect.emulated.is_none() || (!preparation_done && !should_emulate);
            let param_ok = match effect.param {
                Some((size, _)) => size as u64 <= u64::MAX - 7 && scratch <= u64::MAX - 7
                    - size as u64,
                None => true,
            };
            let store_ok = !effect.store_tsc || t.mem.is_mapped(regs.arg2(), 4);
            emulate_ok && param_ok && store_ok
        },
    }
}

} // verus!
