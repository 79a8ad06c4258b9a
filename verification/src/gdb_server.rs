//! The debugging engine behind a GDB remote connection: it answers the
//! client's requests from a replay timeline, and decides what the client is
//! told when the replay stops.
//!
//! The engine does not talk to the client and does not run the replay. It is
//! handed what the client asked and what the replay did, and says what to do
//! next and what to answer.

use crate::address_space::{
    in_patch_stubs, is_in_patch_stubs, memory_reply, read_memory_for_reply, Mapping,
};
use crate::byte_codec::{
    le_u16, le_u32, le_u64, push_le_u16, read_le_u16, read_le_u32, read_le_u64, u16_le,
};
use crate::gdb_command_handler::{macro_bindings, GdbCommandHandler};
use crate::gdb_connection::{
    GdbConnectionFeatures, GdbRegisterValue, GdbRegisterValueData, GdbRequest, GdbRequestType,
    GdbRestartType, GdbThreadId, CPU_64BIT, CPU_AVX, MAX_REGISTER_SIZE,
};
use crate::gdb_register::{
    extra_register_spec, read_register, read_register_spec, ExtraRegisterValue, ExtraRegisters,
    GdbRegister,
    DREG_64_YMM15H, DREG_ORIG_EAX, DREG_ORIG_RAX, DREG_YMM7H,
};
use crate::kernel_abi::{sigkill, sigtrap, word_size, word_size_spec, SupportedArch};
use crate::record_task::{TaskUid, ThreadGroupUid};
use crate::registers::Registers;
use crate::replay_timeline::{
    law_seek_then_mark, lemma_with_mark, mark_le, observed, observed_all, without, BreakStatus,
    Breakpoint,
    Mark, ReplayResult, ReplaySessionState, ReplayStatus, ReplayTimeline, ReverseStep, RunCommand,
    RunDirection, SeekPlan, SigInfo, TaskInfo, TimelineError, TimelineView, WatchType, Watchpoint,
};
use crate::tracee_memory::{MemImage, TraceeMemory};
use std::collections::HashMap;
use vstd::prelude::*;
use vstd::string::StringExecFns;

verus! {

broadcast use vstd::std_specs::hash::group_hash_axioms;

/// Where the debugger is to be attached.
#[derive(Clone, Copy, Debug, PartialEq, Eq, Structural)]
pub struct Target {
    /// The process to debug, or `None` to debug the first process.
    pub pid: Option<i32>,
    /// Whether to wait for the process to exec before attaching.
    pub require_exec: bool,
    /// Attach only once this event has passed.
    pub event: u64,
}

impl Default for Target {
    fn default() -> (r: Target)
        ensures
            r == (Target { pid: None, require_exec: false, event: 0 }),
    {
        Target { pid: None, require_exec: false, event: 0 }
    }
}

/// How the debugger's connection is set up.
pub struct ConnectionFlags {
    /// The port to listen on, or `None` to let the server choose one.
    pub dbg_port: Option<u16>,
    pub dbg_host: String,
    /// Whether to wait for another debugger once the first has gone.
    pub keep_listening: bool,
    /// If set, the file descriptor of the pipe through which the connection
    /// parameters are written once the server listens.
    pub debugger_params_write_pipe: Option<i32>,
    /// The debugger to suggest to the user. Only used without a pipe.
    pub debugger_name: String,
}

impl ConnectionFlags {
    /// The pipe through which the connection parameters are written.
    pub fn debugger_params_write_pipe_unwrap(&self) -> (fd: i32)
        requires
            self.debugger_params_write_pipe is Some,
        ensures
            Some(fd) == self.debugger_params_write_pipe,
    {
        self.debugger_params_write_pipe.unwrap()
    }
}

impl Default for ConnectionFlags {
    fn default() -> (r: ConnectionFlags)
        ensures
            r.dbg_port is None,
            r.dbg_host@.len() == 0,
            !r.keep_listening,
            r.debugger_params_write_pipe is None,
            r.debugger_name@.len() == 0,
    {
        ConnectionFlags {
            dbg_port: None,
            dbg_host: String::new(),
            keep_listening: false,
            debugger_params_write_pipe: None,
            debugger_name: String::new(),
        }
    }
}

/// Whether a free port is looked for when the wanted one is taken.
#[derive(Clone, Copy, Debug, PartialEq, Eq, Structural)]
pub enum ProbePort {
    DontProbe,
    ProbePort,
}

/// The port to start with if the user named none: the low 16 bits of the
/// server's process id.
pub open spec fn port_of_pid(pid: i32) -> u16 {
    (pid % 0x1_0000) as u16
}

/// The port to listen on, and whether to look further if it is taken. A
/// port that the user named is not left: scripts name ports, and would break
/// on another.
pub fn initial_port(dbg_port: Option<u16>, pid: i32) -> (r: (u16, ProbePort))
    ensures
        r == match dbg_port {
            Some(port) => (port, ProbePort::DontProbe),
            None => (port_of_pid(pid), ProbePort::ProbePort),
        },
{
    match dbg_port {
        Some(port) => (port, ProbePort::DontProbe),
        None => {
            let low: i32 = pid % 0x1_0000;
            let port: i32 = if low < 0 {
                low + 0x1_0000
            } else {
                low
            };
            (port as u16, ProbePort::ProbePort)
        },
    }
}

/// `nix::unistd::getpid`: the id of the running process. Nothing is said of
/// it: it differs from run to run.
#[verifier::external_body]
fn current_pid() -> (pid: i32) {
    nix::unistd::getpid().as_raw()
}

/// The port to listen on for `flags`, and whether to look further if it is
/// taken. Without a port in `flags`, the port depends on the id of the
/// running process.
pub fn choose_port(flags: &ConnectionFlags) -> (r: (u16, ProbePort))
    ensures
        match flags.dbg_port {
            Some(port) => r == (port, ProbePort::DontProbe),
            None => r.1 == ProbePort::ProbePort,
        },
{
    let pid = current_pid();
    initial_port(flags.dbg_port, pid)
}

/// The record that tells a launcher how to reach the server: the path of
/// the debuggee's executable, closed by a zero byte; the host in 16 bytes,
/// padded with zeros; the port, low byte first.
pub open spec fn debugger_params_spec(exe_image: Seq<u8>, host: Seq<u8>, port: u16) -> Seq<u8> {
    exe_image + seq![0u8] + host + Seq::new((16 - host.len()) as nat, |i: int| 0u8)
        + u16_le(port)
}

/// The record that tells a launcher how to reach the server, or `None` if
/// the host does not fit its 16 bytes.
pub fn debugger_params(exe_image: &Vec<u8>, host: &Vec<u8>, port: u16) -> (r: Option<Vec<u8>>)
    ensures
        match r {
            Some(bytes) => host@.len() <= 16 && bytes@ == debugger_params_spec(
                exe_image@,
                host@,
                port,
            ),
            None => host@.len() > 16,
        },
{
    if host.len() > 16 {
        return None;
    }
    let mut out: Vec<u8> = exe_image.clone();
    out.push(0u8);
    let mut h: Vec<u8> = host.clone();
    out.append(&mut h);
    let mut i: usize = host.len();
    let ghost head = out@;
    while i < 16
        invariant
            host@.len() <= i <= 16,
            out@ == head + Seq::new((i - host@.len()) as nat, |k: int| 0u8),
        decreases 16 - i,
    {
        out.push(0u8);
        i = i + 1;
        assert(out@ =~= head + Seq::new((i - host@.len()) as nat, |k: int| 0u8));
    }
    push_le_u16(&mut out, port);
    assert(out@ =~= debugger_params_spec(exe_image@, host@, port));
    Some(out)
}

/// Whether a checkpoint holds the replay state it names.
#[derive(Clone, Copy, Debug, PartialEq, Eq, Structural)]
pub enum ExplicitCheckpoint {
    Explicit,
    NotExplicit,
}

/// A state of the replay that the debugger can restart from.
pub struct Checkpoint {
    pub mark: Mark,
    /// The task that was continued last when the checkpoint was made.
    pub last_continue_tuid: Option<TaskUid>,
    pub is_explicit: ExplicitCheckpoint,
    /// Where in the program the checkpoint was made, for the user.
    pub where_: String,
}

/// What a `Checkpoint` says.
pub struct CheckpointView {
    pub mark: Mark,
    pub last_continue_tuid: Option<TaskUid>,
    pub is_explicit: ExplicitCheckpoint,
    pub where_: Seq<char>,
}

impl View for Checkpoint {
    type V = CheckpointView;

    open spec fn view(&self) -> CheckpointView {
        CheckpointView {
            mark: self.mark,
            last_continue_tuid: self.last_continue_tuid,
            is_explicit: self.is_explicit,
            where_: self.where_@,
        }
    }
}

impl Checkpoint {
    /// Make a checkpoint of where `timeline` stands. An explicit checkpoint
    /// holds the state, if the timeline can take a checkpoint here; any
    /// other only names it.
    pub fn new(
        timeline: &mut ReplayTimeline,
        last_continue_tuid: Option<TaskUid>,
        e: ExplicitCheckpoint,
        where_: &str,
    ) -> (r: Checkpoint)
        requires
            old(timeline)@.wf(),
        ensures
            r@ == (CheckpointView {
                mark: old(timeline)@.current,
                last_continue_tuid,
                is_explicit: e,
                where_: where_@,
            }),
            final(timeline)@ == if e == ExplicitCheckpoint::Explicit {
                old(timeline)@.checkpointed()
            } else {
                old(timeline)@.marked()
            },
            final(timeline)@.wf(),
    {
        let mark = match e {
            ExplicitCheckpoint::Explicit => timeline.add_explicit_checkpoint(),
            ExplicitCheckpoint::NotExplicit => timeline.mark(),
        };
        Checkpoint { mark, last_continue_tuid, is_explicit: e, where_: where_.to_owned() }
    }

    /// A copy of the checkpoint.
    pub fn duplicate(&self) -> (r: Checkpoint)
        ensures
            r@ == self@,
    {
        Checkpoint {
            mark: self.mark,
            last_continue_tuid: self.last_continue_tuid,
            is_explicit: self.is_explicit,
            where_: self.where_.clone(),
        }
    }
}

/// What a register value says.
pub enum RegisterValueDataView {
    Value1(u8),
    Value2(u16),
    Value4(u32),
    Value8(u64),
    ValueGeneric(Seq<u8>),
}

/// What a `GdbRegisterValue` says.
pub struct RegisterValueView {
    pub name: GdbRegister,
    pub value: RegisterValueDataView,
    pub defined: bool,
    pub size: usize,
}

/// What `v` says.
pub open spec fn register_value_view(v: GdbRegisterValue) -> RegisterValueView {
    RegisterValueView {
        name: v.name,
        value: match v.value {
            GdbRegisterValueData::Value1(x) => RegisterValueDataView::Value1(x),
            GdbRegisterValueData::Value2(x) => RegisterValueDataView::Value2(x),
            GdbRegisterValueData::Value4(x) => RegisterValueDataView::Value4(x),
            GdbRegisterValueData::Value8(x) => RegisterValueDataView::Value8(x),
            GdbRegisterValueData::ValueGeneric(b) => RegisterValueDataView::ValueGeneric(b@),
        },
        defined: v.defined,
        size: v.size,
    }
}

/// `bytes`, then zeros up to `MAX_REGISTER_SIZE`.
pub open spec fn padded(bytes: Seq<u8>) -> Seq<u8> {
    Seq::new(
        MAX_REGISTER_SIZE as nat,
        |i: int|
            if i < bytes.len() {
                bytes[i]
            } else {
                0u8
            },
    )
}

/// The bytes that either register file holds of `which`: the user registers
/// are asked first.
pub open spec fn register_bytes(
    regs: Registers,
    extra: Seq<ExtraRegisterValue>,
    which: GdbRegister,
) -> Option<Seq<u8>> {
    match read_register_spec(regs, which) {
        Some(b) => Some(b),
        None => extra_register_spec(extra, which),
    }
}

/// What the client is told of register `which` when `bytes` are what was
/// read of it: a number for a value of 1, 2, 4 or 8 bytes, the padded bytes
/// for any other, and an undefined value if nothing was read.
pub open spec fn register_value(which: GdbRegister, bytes: Option<Seq<u8>>) -> RegisterValueView {
    match bytes {
        None => RegisterValueView {
            name: which,
            value: RegisterValueDataView::ValueGeneric(padded(Seq::empty())),
            defined: false,
            size: 0,
        },
        Some(b) => RegisterValueView {
            name: which,
            value: if b.len() == 1 {
                RegisterValueDataView::Value1(b[0])
            } else if b.len() == 2 {
                RegisterValueDataView::Value2(le_u16(b))
            } else if b.len() == 4 {
                RegisterValueDataView::Value4(le_u32(b))
            } else if b.len() == 8 {
                RegisterValueDataView::Value8(le_u64(b))
            } else {
                RegisterValueDataView::ValueGeneric(padded(b))
            },
            defined: true,
            size: b.len() as usize,
        },
    }
}

/// Every extra register has at most `MAX_REGISTER_SIZE` bytes.
pub open spec fn extra_registers_fit(extra: Seq<ExtraRegisterValue>) -> bool {
    forall|i: int| 0 <= i < extra.len() ==> (#[trigger] extra[i]).bytes@.len() <= MAX_REGISTER_SIZE
}

proof fn lemma_extra_register_fits(extra: Seq<ExtraRegisterValue>, which: GdbRegister)
    requires
        extra_registers_fit(extra),
    ensures
        extra_register_spec(extra, which) is Some ==> extra_register_spec(
            extra,
            which,
        )->Some_0.len() <= MAX_REGISTER_SIZE,
    decreases extra.len(),
{
    if extra.len() > 0 {
        assert(extra[0].bytes@.len() <= MAX_REGISTER_SIZE);
        if extra[0].name != which {
            assert forall|i: int| 0 <= i < extra.skip(1).len() implies (
            #[trigger] extra.skip(1)[i]).bytes@.len() <= MAX_REGISTER_SIZE by {
                assert(extra.skip(1)[i] == extra[i + 1]);
            }
            lemma_extra_register_fits(extra.skip(1), which);
        }
    }
}

/// Read register `regname` from either register file: its bytes, or `None`
/// if neither holds it. The user registers are asked first.
pub fn get_reg(regs: &Registers, extra_regs: &ExtraRegisters, regname: GdbRegister) -> (r: Option<
    Vec<u8>,
>)
    ensures
        match r {
            Some(bytes) => register_bytes(*regs, extra_regs.values@, regname) == Some(bytes@),
            None => register_bytes(*regs, extra_regs.values@, regname) is None,
        },
{
    match read_register(regs, regname) {
        Some(bytes) => Some(bytes),
        None => extra_regs.read_register(regname),
    }
}

/// The CPU features to show a client that debugs a task of `arch`, when
/// `cpuid_ecx` is what the host's CPUID feature leaf has in `ecx`: AVX is
/// shown if the CPU has it and the OS saves its registers.
pub open spec fn cpu_features_spec(arch: SupportedArch, cpuid_ecx: u32) -> u32 {
    let base = match arch {
        SupportedArch::X86 => 0u32,
        SupportedArch::X64 => CPU_64BIT,
    };
    if cpuid_ecx & 0x1800_0000 == 0x1800_0000 {
        base | CPU_AVX
    } else {
        base
    }
}

/// The AVX bit of the CPUID feature leaf.
pub const AVX_FEATURE_FLAG: u32 = 0x1000_0000;

/// The OSXSAVE bit of the CPUID feature leaf.
pub const OSXSAVE_FEATURE_FLAG: u32 = 0x0800_0000;

/// The CPU features to show a client that debugs a task of `arch`.
pub fn get_cpu_features(arch: SupportedArch, cpuid_ecx: u32) -> (r: u32)
    ensures
        r == cpu_features_spec(arch, cpuid_ecx),
{
    let mut cpu_features: u32 = match arch {
        SupportedArch::X86 => 0,
        SupportedArch::X64 => CPU_64BIT,
    };
    let avx_cpuid_flags: u32 = AVX_FEATURE_FLAG | OSXSAVE_FEATURE_FLAG;
    assert(0x1000_0000u32 | 0x0800_0000u32 == 0x1800_0000u32) by (bit_vector);
    if (cpuid_ecx & avx_cpuid_flags) == avx_cpuid_flags {
        cpu_features = cpu_features | CPU_AVX;
    }
    cpu_features
}

/// The thread that GDB knows a task as.
pub fn get_threadid(t: &TaskInfo) -> (r: GdbThreadId)
    ensures
        r == (GdbThreadId { pid: t.tgid, tid: t.rec_tid }),
{
    GdbThreadId::new(t.tgid, t.rec_tid)
}

/// The thread that GDB knows the task `tuid` as, where `found` is what the
/// session knows of the task: a task that is gone belongs to any process.
pub fn get_threadid_from_tuid(found: Option<&TaskInfo>, tuid: TaskUid) -> (r: GdbThreadId)
    ensures
        r == (GdbThreadId {
            pid: match found {
                Some(t) => t.tgid,
                None => 0,
            },
            tid: tuid.tid,
        }),
{
    let pid: i32 = match found {
        Some(t) => t.tgid,
        None => GdbThreadId::any().pid,
    };
    GdbThreadId::new(pid, tuid.tid)
}

/// Whether `t` is a thread that `target` stands for.
pub fn matches_threadid(t: &TaskInfo, target: GdbThreadId) -> (r: bool)
    ensures
        r == ((target.pid <= 0 || target.pid == t.tgid) && (target.tid <= 0 || target.tid
            == t.rec_tid)),
{
    (target.pid <= 0 || target.pid == t.tgid) && (target.tid <= 0 || target.tid == t.rec_tid)
}

/// The last task of a thread group has exited.
pub open spec fn last_thread_exited(break_status: &BreakStatus) -> bool {
    break_status.task_exit && break_status.task is Some
        && break_status.task->Some_0.thread_group_size == 1
}

/// Whether the stop is the exit of the last task of its thread group.
pub fn is_last_thread_exit(break_status: &BreakStatus) -> (r: bool)
    ensures
        r == last_thread_exited(break_status),
{
    match break_status.task {
        Some(t) => break_status.task_exit && t.thread_group_size == 1,
        None => false,
    }
}

/// The task that is about to return from a successful exec, if the replay
/// stands there.
pub fn is_in_exec(timeline: &ReplayTimeline) -> (r: Option<TaskInfo>)
    ensures
        r == if timeline@.session.next_step_is_successful_exec_exit {
            timeline@.session.current_task
        } else {
            None
        },
{
    let t = timeline.session.current_task?;
    if timeline.session.next_step_is_successful_exec_exit {
        Some(t)
    } else {
        None
    }
}

/// The kinds of request that set or remove a hardware breakpoint or a
/// watchpoint.
pub open spec fn is_watch_request(req: GdbRequestType) -> bool {
    req == GdbRequestType::DREQ_SET_HW_BREAK || req == GdbRequestType::DREQ_REMOVE_HW_BREAK || req
        == GdbRequestType::DREQ_SET_WR_WATCH || req == GdbRequestType::DREQ_REMOVE_WR_WATCH || req
        == GdbRequestType::DREQ_SET_RD_WATCH || req == GdbRequestType::DREQ_REMOVE_RD_WATCH || req
        == GdbRequestType::DREQ_SET_RDWR_WATCH || req == GdbRequestType::DREQ_REMOVE_RDWR_WATCH
}

/// What a request to set or remove a watchpoint watches for. x86 has no
/// watchpoints for reads alone, so those watch for reads and writes.
pub fn watchpoint_type(req: GdbRequestType) -> (r: WatchType)
    requires
        is_watch_request(req),
    ensures
        r == match req {
            GdbRequestType::DREQ_SET_HW_BREAK | GdbRequestType::DREQ_REMOVE_HW_BREAK =>
                WatchType::WatchExec,
            GdbRequestType::DREQ_SET_WR_WATCH | GdbRequestType::DREQ_REMOVE_WR_WATCH =>
                WatchType::WatchWrite,
            _ => WatchType::WatchReadWrite,
        },
{
    match req {
        GdbRequestType::DREQ_SET_HW_BREAK | GdbRequestType::DREQ_REMOVE_HW_BREAK =>
            WatchType::WatchExec,
        GdbRequestType::DREQ_SET_WR_WATCH | GdbRequestType::DREQ_REMOVE_WR_WATCH =>
            WatchType::WatchWrite,
        _ => WatchType::WatchReadWrite,
    }
}

/// An expression in GDB's bytecode.
pub struct GdbExpression {
    pub bytecode: Vec<u8>,
}

/// The condition of a breakpoint or watchpoint: a list of expressions that
/// are evaluated when it is hit.
pub struct GdbBreakpointCondition {
    pub expressions: Vec<GdbExpression>,
}

/// Whether a hit counts, given for each expression of the condition what
/// it evaluated to, `None` if it could not be evaluated: the hit counts if
/// every expression is nonzero or could not be evaluated.
pub open spec fn condition_holds(results: Seq<Option<i64>>) -> bool {
    forall|i: int| 0 <= i < results.len() ==> (#[trigger] results[i]) != Some(0i64)
}

impl GdbBreakpointCondition {
    /// The condition made of `bytecodes`, one expression each.
    pub fn new(bytecodes: &Vec<Vec<u8>>) -> (r: GdbBreakpointCondition)
        ensures
            r.expressions@.len() == bytecodes@.len(),
            forall|i: int|
                0 <= i < bytecodes@.len() ==> (#[trigger] r.expressions@[i]).bytecode@
                    == bytecodes@[i]@,
    {
        let mut expressions: Vec<GdbExpression> = Vec::new();
        let mut i: usize = 0;
        while i < bytecodes.len()
            invariant
                i <= bytecodes@.len(),
                expressions@.len() == i,
                forall|j: int|
                    0 <= j < i ==> (#[trigger] expressions@[j]).bytecode@ == bytecodes@[j]@,
            decreases bytecodes@.len() - i,
        {
            expressions.push(GdbExpression { bytecode: bytecodes[i].clone() });
            i = i + 1;
        }
        GdbBreakpointCondition { expressions }
    }

    /// Whether a hit counts, given in `results` what each expression of the
    /// condition evaluated to (`None` where it could not be evaluated).
    pub fn evaluate(&self, results: &Vec<Option<i64>>) -> (r: bool)
        requires
            results@.len() == self.expressions@.len(),
        ensures
            r == condition_holds(results@),
    {
        let mut i: usize = 0;
        while i < results.len()
            invariant
                i <= results@.len(),
                forall|j: int| 0 <= j < i ==> (#[trigger] results@[j]) != Some(0i64),
            decreases results@.len() - i,
        {
            match results[i] {
                Some(v) => {
                    if v == 0 {
                        return false;
                    }
                },
                None => {},
            }
            i = i + 1;
        }
        true
    }
}

/// The condition that `request` puts on its breakpoint or watchpoint, or
/// `None` if it puts none.
pub fn breakpoint_condition(request: &GdbRequest) -> (r: Option<GdbBreakpointCondition>)
    requires
        request.value is GdbRequestWatch,
    ensures
        r is None <==> request.value->GdbRequestWatch_0.conditions@.len() == 0,
        r is Some ==> {
            let conditions = request.value->GdbRequestWatch_0.conditions@;
            &&& r->Some_0.expressions@.len() == conditions.len()
            &&& forall|i: int|
                0 <= i < conditions.len() ==> (#[trigger] r->Some_0.expressions@[i]).bytecode@
                    == conditions[i]@
        },
{
    if request.watch().conditions.len() == 0 {
        return None;
    }
    Some(GdbBreakpointCondition::new(&request.watch().conditions))
}

/// The server that answers one debuggee's debugger.
pub struct GdbServer {
    pub target: Target,
    /// Whether a debugger is connected.
    pub connected: bool,
    /// The CPU features that the connected debugger was shown.
    pub cpu_features: u32,
    /// What the connected debugger can do.
    pub features: GdbConnectionFeatures,
    /// The thread group that is debugged. Set when the debugger is
    /// activated, and never changed after.
    pub debuggee_tguid: Option<ThreadGroupUid>,
    /// The task that was continued last.
    pub last_continue_tuid: Option<TaskUid>,
    /// The task that was asked about last.
    pub last_query_tuid: Option<TaskUid>,
    pub final_event: u64,
    /// The signal of the stop that the debugger was told of last.
    pub stop_siginfo: SigInfo,
    pub in_debuggee_end_state: bool,
    /// Whether the user has interrupted the replay to the target.
    pub stop_replaying_to_target: bool,
    /// Whether the next resumption is to stop at once: an interrupt was
    /// received and not acted on yet, or the replay was restarted.
    pub interrupt_pending: bool,
    /// The timeline of the replay; `None` for a live session that is
    /// debugged in an emergency.
    pub timeline: Option<ReplayTimeline>,
    /// The checkpoint that a restart without argument goes to.
    pub debugger_restart_checkpoint: Option<Checkpoint>,
    /// The checkpoints that the user made, by their number.
    pub checkpoints: HashMap<u64, Checkpoint>,
    /// The files that the debugger has open, by the descriptor that the
    /// debugger knows them by; each with the server's own descriptor.
    pub files: HashMap<i32, i32>,
    /// The process whose files the debugger looks at, as set by its last
    /// `vFile:setfs`; 0 if none was set.
    pub file_scope_pid: i32,
    /// The symbols whose addresses the debugger is still to be asked for,
    /// each once, in the order they were added.
    pub symbols: Vec<String>,
}

/// What a `GdbServer` says.
pub struct GdbServerView {
    pub target: Target,
    pub connected: bool,
    pub cpu_features: u32,
    pub features: GdbConnectionFeatures,
    pub debuggee_tguid: Option<ThreadGroupUid>,
    pub last_continue_tuid: Option<TaskUid>,
    pub last_query_tuid: Option<TaskUid>,
    pub final_event: u64,
    pub stop_siginfo: SigInfo,
    pub in_debuggee_end_state: bool,
    pub stop_replaying_to_target: bool,
    pub interrupt_pending: bool,
    pub timeline: Option<TimelineView>,
    pub debugger_restart_checkpoint: Option<CheckpointView>,
    pub checkpoints: Map<u64, CheckpointView>,
    pub files: Map<i32, i32>,
    pub file_scope_pid: i32,
    pub symbols: Seq<Seq<char>>,
}

/// What a run of names says.
pub open spec fn name_views(names: Seq<String>) -> Seq<Seq<char>> {
    Seq::new(names.len(), |i: int| names[i]@)
}

/// What a table of checkpoints says.
pub open spec fn checkpoint_views(table: Map<u64, Checkpoint>) -> Map<u64, CheckpointView> {
    Map::new(|id: u64| table.dom().contains(id), |id: u64| table[id]@)
}

impl View for GdbServer {
    type V = GdbServerView;

    open spec fn view(&self) -> GdbServerView {
        GdbServerView {
            target: self.target,
            connected: self.connected,
            cpu_features: self.cpu_features,
            features: self.features,
            debuggee_tguid: self.debuggee_tguid,
            last_continue_tuid: self.last_continue_tuid,
            last_query_tuid: self.last_query_tuid,
            final_event: self.final_event,
            stop_siginfo: self.stop_siginfo,
            in_debuggee_end_state: self.in_debuggee_end_state,
            stop_replaying_to_target: self.stop_replaying_to_target,
            interrupt_pending: self.interrupt_pending,
            timeline: match self.timeline {
                Some(t) => Some(t@),
                None => None,
            },
            debugger_restart_checkpoint: match self.debugger_restart_checkpoint {
                Some(c) => Some(c@),
                None => None,
            },
            checkpoints: checkpoint_views(self.checkpoints@),
            files: self.files@,
            file_scope_pid: self.file_scope_pid,
            symbols: name_views(self.symbols@),
        }
    }
}

/// What the user is told when the debugger is activated.
#[derive(Clone, Copy, Debug, PartialEq, Eq, Structural)]
pub enum ActivationNotice {
    /// Nothing: the debugger was attached to the first process at the
    /// first event.
    Quiet,
    /// The replay reached the process and event that the user asked for.
    ReachedTarget { tgid: i32, event: u64 },
    /// The user interrupted the replay before it got there.
    Interrupted { tgid: i32, event: u64 },
}

/// What to do about a request to restart.
pub enum RestartAction {
    /// The checkpoint that was asked for does not exist: tell the client
    /// that the restart failed.
    NotifyRestartFailed,
    /// Take the session to the checkpoint as `plan` says, then call
    /// `checkpoint_restored` with the checkpoint.
    SeekToCheckpoint { checkpoint: Checkpoint, plan: SeekPlan },
    /// Take the session to just before the target event as `event_plan` says
    /// (or to the start of what can be replayed, where the plan is refused),
    /// then replay forward, showing each step to `restart_step`.
    SeekToEvent { event_plan: Result<SeekPlan, TimelineError> },
}

/// A stop that the client is told of.
#[derive(Clone, Copy, Debug, PartialEq, Eq, Structural)]
pub struct StopNotification {
    pub threadid: GdbThreadId,
    /// The signal that stopped the thread; `None` for a silent stop.
    pub sig: Option<i32>,
    /// The address of the watchpoint that was hit, or 0.
    pub watch_addr: u64,
}

/// The signal that the client is told of for `signo`: none for a number
/// that is no signal.
pub open spec fn reported_signal(signo: i32) -> Option<i32> {
    if 1 <= signo <= 64 {
        Some(signo)
    } else {
        None
    }
}

/// The last register that is sent in answer to a request for all
/// registers: the original `ax`, or the last upper half of a `ymm` register
/// if the client was shown AVX.
pub open spec fn last_register_sent(arch: SupportedArch, cpu_features: u32) -> GdbRegister {
    let have_avx = cpu_features & CPU_AVX != 0;
    match arch {
        SupportedArch::X86 => if have_avx {
            DREG_YMM7H
        } else {
            DREG_ORIG_EAX
        },
        SupportedArch::X64 => if have_avx {
            DREG_64_YMM15H
        } else {
            DREG_ORIG_RAX
        },
    }
}

/// The stop that follows from `break_status` after a resumption in
/// direction `direction`: whether there is one, and with which signal. The
/// later of the reasons that apply decides.
pub open spec fn stop_reason(
    break_status: &BreakStatus,
    direction: RunDirection,
    reverse_execution: bool,
    in_exec: bool,
    previous: SigInfo,
) -> (bool, SigInfo) {
    let watch = break_status.watchpoints_hit@.len() > 0;
    let step = break_status.breakpoint_hit || break_status.singlestep_complete;
    let signal = break_status.signal is Some;
    let exit = last_thread_exited(break_status) && reverse_execution;
    (
        watch || step || signal || exit || in_exec,
        if in_exec {
            SigInfo::zeroed()
        } else if exit {
            // The exit of the last task of a thread group looks like a kill
            // when running forward, because users often want to run
            // backwards from the end; the start of the debuggee is a silent
            // stop when running backwards.
            if direction == RunDirection::RunForward {
                SigInfo::of_signal(9)
            } else {
                SigInfo::of_signal(0)
            }
        } else if signal {
            break_status.signal->Some_0
        } else if watch || step {
            SigInfo::of_signal(5)
        } else {
            previous
        },
    )
}

impl GdbServerView {
    /// The server has a timeline, and it is well formed.
    pub open spec fn has_timeline(self) -> bool {
        self.timeline is Some && self.timeline->Some_0.wf()
    }

    /// Whether the replay has reached the state at which the debugger is to
    /// be attached.
    ///
    /// The debugger is attached wherever the user interrupted the replay.
    /// Else it is attached once the first exec has happened, there is a
    /// current task, a checkpoint can be taken, the frame to be replayed next
    /// lies after the target event, the task belongs to the target process if
    /// one was named, the task has called exec if that was asked for, and the
    /// replay is at the start of an event.
    pub open spec fn at_target(self) -> bool {
        let timeline = self.timeline->Some_0;
        let session = timeline.session;
        self.stop_replaying_to_target || {
            &&& session.done_initial_exec
            &&& session.current_task is Some
            &&& timeline.can_add_checkpoint()
            &&& session.frame_time > self.target.event
            &&& self.target.pid is None || session.current_task->Some_0.tgid
                == self.target.pid->Some_0
            &&& !self.target.require_exec || session.current_task->Some_0.execed
            &&& !timeline.current.in_execution_spec()
        }
    }

    /// The server once the debugger is activated at the current state.
    pub open spec fn activated(self) -> GdbServerView {
        let timeline = self.timeline->Some_0;
        let t = timeline.session.current_task->Some_0;
        GdbServerView {
            target: Target {
                pid: Some(t.tgid),
                require_exec: false,
                event: timeline.session.frame_time,
            },
            debuggee_tguid: if self.debuggee_tguid is Some {
                self.debuggee_tguid
            } else {
                Some(t.tguid)
            },
            last_query_tuid: Some(t.tuid),
            last_continue_tuid: Some(t.tuid),
            timeline: Some(timeline.checkpointed()),
            debugger_restart_checkpoint: Some(
                CheckpointView {
                    mark: timeline.current,
                    last_continue_tuid: Some(t.tuid),
                    is_explicit: if timeline.can_add_checkpoint() {
                        ExplicitCheckpoint::Explicit
                    } else {
                        ExplicitCheckpoint::NotExplicit
                    },
                    where_: "???"@,
                },
            ),
            ..self
        }
    }

    /// What the user is told when the debugger is activated at the current
    /// state.
    pub open spec fn activation_notice(self) -> ActivationNotice {
        let timeline = self.timeline->Some_0;
        let t = timeline.session.current_task->Some_0;
        if self.target.event > 0 || self.target.pid is Some {
            if self.stop_replaying_to_target {
                ActivationNotice::Interrupted { tgid: t.tgid, event: timeline.session.frame_time }
            } else {
                ActivationNotice::ReachedTarget {
                    tgid: t.tgid,
                    event: timeline.session.frame_time,
                }
            }
        } else {
            ActivationNotice::Quiet
        }
    }
}

impl GdbServer {
    /// A server for the replay of a session that stands at `current` and
    /// is as `session` says, with a new timeline over it, to attach the
    /// debugger at `target`.
    pub fn new(current: Mark, session: ReplaySessionState, target: &Target) -> (r: GdbServer)
        ensures
            r@ == (GdbServerView {
                target: *target,
                connected: false,
                cpu_features: 0,
                features: GdbConnectionFeatures { reverse_execution: true },
                debuggee_tguid: None,
                last_continue_tuid: None,
                last_query_tuid: None,
                final_event: u64::MAX,
                stop_siginfo: SigInfo::zeroed(),
                in_debuggee_end_state: false,
                stop_replaying_to_target: false,
                interrupt_pending: false,
                timeline: Some(TimelineView::starting(current, session)),
                debugger_restart_checkpoint: None,
                checkpoints: Map::empty(),
                files: Map::empty(),
                file_scope_pid: 0,
                symbols: Seq::empty(),
            }),
            r@.wf(),
    {
        let timeline = ReplayTimeline::new(current, session);
        let r = GdbServer {
            target: *target,
            connected: false,
            cpu_features: 0,
            features: GdbConnectionFeatures { reverse_execution: true },
            debuggee_tguid: None,
            last_continue_tuid: None,
            last_query_tuid: None,
            final_event: u64::MAX,
            stop_siginfo: SigInfo::new(0),
            in_debuggee_end_state: false,
            stop_replaying_to_target: false,
            interrupt_pending: false,
            timeline: Some(timeline),
            debugger_restart_checkpoint: None,
            checkpoints: HashMap::new(),
            files: HashMap::new(),
            file_scope_pid: 0,
            symbols: Vec::new(),
        };
        assert(r@.checkpoints =~= Map::<u64, CheckpointView>::empty());
        assert(r@.symbols =~= Seq::<Seq<char>>::empty());
        r
    }

    /// A server for the live task `t`, whose debugger is connected already
    /// and was shown `cpu_features`.
    pub fn new_from(cpu_features: u32, features: GdbConnectionFeatures, t: &TaskInfo) -> (r:
        GdbServer)
        ensures
            r@ == (GdbServerView {
                target: Target { pid: None, require_exec: false, event: 0 },
                connected: true,
                cpu_features,
                features,
                debuggee_tguid: Some(t.tguid),
                last_continue_tuid: Some(t.tuid),
                last_query_tuid: None,
                final_event: u64::MAX,
                stop_siginfo: SigInfo::zeroed(),
                in_debuggee_end_state: false,
                stop_replaying_to_target: false,
                interrupt_pending: false,
                timeline: None,
                debugger_restart_checkpoint: None,
                checkpoints: Map::empty(),
                files: Map::empty(),
                file_scope_pid: 0,
                symbols: Seq::empty(),
            }),
    {
        let r = GdbServer {
            target: Target { pid: None, require_exec: false, event: 0 },
            connected: true,
            cpu_features,
            features,
            debuggee_tguid: Some(t.tguid),
            last_continue_tuid: Some(t.tuid),
            last_query_tuid: None,
            final_event: u64::MAX,
            stop_siginfo: SigInfo::new(0),
            in_debuggee_end_state: false,
            stop_replaying_to_target: false,
            interrupt_pending: false,
            timeline: None,
            debugger_restart_checkpoint: None,
            checkpoints: HashMap::new(),
            files: HashMap::new(),
            file_scope_pid: 0,
            symbols: Vec::new(),
        };
        assert(r@.checkpoints =~= Map::<u64, CheckpointView>::empty());
        assert(r@.symbols =~= Seq::<Seq<char>>::empty());
        r
    }

    /// Whether the server has a timeline, and it is well formed.
    pub fn has_timeline(&self) -> (r: bool)
        ensures
            r == self@.has_timeline(),
    {
        match &self.timeline {
            Some(timeline) => timeline.is_well_formed(),
            None => false,
        }
    }

    /// The server's timeline.
    pub fn timeline_unwrap(&self) -> (r: &ReplayTimeline)
        requires
            self.timeline is Some,
        ensures
            Some(*r) == self.timeline,
    {
        self.timeline.as_ref().unwrap()
    }

    /// The register `which` as the client is told of it. A register that
    /// neither register file holds is told as undefined.
    pub fn get_reg(regs: &Registers, extra_regs: &ExtraRegisters, which: GdbRegister) -> (r:
        GdbRegisterValue)
        requires
            extra_registers_fit(extra_regs.values@),
        ensures
            register_value_view(r) == register_value(
                which,
                register_bytes(*regs, extra_regs.values@, which),
            ),
    {
        proof {
            lemma_extra_register_fits(extra_regs.values@, which);
        }
        match get_reg(regs, extra_regs, which) {
            Some(b) => {
                assert(b@.skip(0) =~= b@);
                let size = b.len();
                let value = if size == 1 {
                    GdbRegisterValueData::Value1(b[0])
                } else if size == 2 {
                    GdbRegisterValueData::Value2(read_le_u16(&b, 0))
                } else if size == 4 {
                    GdbRegisterValueData::Value4(read_le_u32(&b, 0))
                } else if size == 8 {
                    GdbRegisterValueData::Value8(read_le_u64(&b, 0))
                } else {
                    GdbRegisterValueData::ValueGeneric(pad(&b))
                };
                GdbRegisterValue { name: which, value, defined: true, size }
            },
            None => {
                let empty: Vec<u8> = Vec::new();
                GdbRegisterValue {
                    name: which,
                    value: GdbRegisterValueData::ValueGeneric(pad(&empty)),
                    defined: false,
                    size: 0,
                }
            },
        }
    }

    /// The answer to a request for all registers: every register that the
    /// client was given a description of, from the first to
    /// `last_register_sent`, in order.
    pub fn dispatch_regs_request(&self, regs: &Registers, extra_regs: &ExtraRegisters) -> (rs: Vec<
        GdbRegisterValue,
    >)
        requires
            extra_registers_fit(extra_regs.values@),
        ensures
            rs@.len() == last_register_sent(regs.arch, self.cpu_features) + 1,
            forall|r: int|
                0 <= r < rs@.len() ==> register_value_view(#[trigger] rs@[r]) == register_value(
                    r as u32,
                    register_bytes(*regs, extra_regs.values@, r as u32),
                ),
    {
        let have_avx = (self.cpu_features & CPU_AVX) != 0;
        let end: GdbRegister = match regs.arch {
            SupportedArch::X86 => if have_avx {
                DREG_YMM7H
            } else {
                DREG_ORIG_EAX
            },
            SupportedArch::X64 => if have_avx {
                DREG_64_YMM15H
            } else {
                DREG_ORIG_RAX
            },
        };
        let mut rs: Vec<GdbRegisterValue> = Vec::new();
        let mut r: GdbRegister = 0;
        while r <= end
            invariant
                r <= end + 1,
                end <= 75,
                rs@.len() == r,
                extra_registers_fit(extra_regs.values@),
                forall|k: int|
                    0 <= k < rs@.len() ==> register_value_view(#[trigger] rs@[k])
                        == register_value(
                        k as u32,
                        register_bytes(*regs, extra_regs.values@, k as u32),
                    ),
            decreases end + 1 - r,
        {
            rs.push(GdbServer::get_reg(regs, extra_regs, r));
            r = r + 1;
        }
        rs
    }

    /// Hide the return address at the top of the stack from the client while
    /// the debuggee runs the recorder's stubs: if the read that `req` asks
    /// for covers the word at the stack pointer, that word reads as zero.
    /// Otherwise the client's stack walk may take it for a return address and
    /// set a breakpoint there, which can corrupt program data.
    pub fn maybe_intercept_mem_request(
        regs: &Registers,
        in_patch_stubs: bool,
        req: &GdbRequest,
        result: &mut Vec<u8>,
    )
        requires
            req.value is GdbRequestMem,
        ensures
            final(result)@.len() == old(result)@.len(),
            forall|i: int|
                0 <= i < old(result)@.len() ==> #[trigger] final(result)@[i] == if hides_stack_word(
                    *regs,
                    in_patch_stubs,
                    req.value->GdbRequestMem_0.addr,
                    req.value->GdbRequestMem_0.len,
                ) && regs.sp - req.value->GdbRequestMem_0.addr <= i < regs.sp
                    - req.value->GdbRequestMem_0.addr + word_size_spec(regs.arch) {
                    0u8
                } else {
                    old(result)@[i]
                },
    {
        let size: usize = word_size(regs.arch);
        let addr: u64 = req.mem().addr;
        let len: usize = req.mem().len;
        let sp: u64 = regs.sp;
        if sp >= addr && (sp - addr) <= u64::MAX - size as u64 && ((sp - addr) + size as u64)
            <= len as u64 && in_patch_stubs {
            let offset: usize = (sp - addr) as usize;
            let mut i: usize = 0;
            while i < size
                invariant
                    i <= size,
                    size == word_size_spec(regs.arch),
                    offset + size <= usize::MAX,
                    result@.len() == old(result)@.len(),
                    forall|k: int|
                        0 <= k < result@.len() ==> #[trigger] result@[k] == if offset <= k < offset
                            + i {
                            0u8
                        } else {
                            old(result)@[k]
                        },
                decreases size - i,
            {
                if offset + i < result.len() {
                    result.set(offset + i, 0u8);
                }
                i = i + 1;
            }
        }
    }

    /// Answer the request `req` to read memory of the task whose registers
    /// are `regs`, whose memory is `mem` and whose mappings are `maps`: the
    /// bytes that can be read, zeros for what cannot, and zeros for the word
    /// at the stack pointer if it is to be hidden.
    pub fn dispatch_mem_request(
        regs: &Registers,
        mem: &TraceeMemory,
        maps: &Vec<Mapping>,
        req: &GdbRequest,
    ) -> (bytes: Vec<u8>)
        requires
            req.value is GdbRequestMem,
        ensures
            bytes@ == mem_request_reply(
                *regs,
                in_patch_stubs(maps@, regs.ip),
                mem@,
                req.value->GdbRequestMem_0.addr,
                req.value->GdbRequestMem_0.len,
            ),
    {
        let mut bytes = read_memory_for_reply(mem, req.mem().addr, req.mem().len);
        let in_stubs = is_in_patch_stubs(maps, regs.ip());
        GdbServer::maybe_intercept_mem_request(regs, in_stubs, req, &mut bytes);
        assert(bytes@ =~= mem_request_reply(
            *regs,
            in_patch_stubs(maps@, regs.ip),
            mem@,
            req.value->GdbRequestMem_0.addr,
            req.value->GdbRequestMem_0.len,
        ));
        bytes
    }

    /// Whether the replay has reached the state at which the debugger is to
    /// be attached.
    pub fn at_target(&self) -> (r: bool)
        requires
            self.timeline is Some,
        ensures
            r == self@.at_target(),
    {
        if self.stop_replaying_to_target {
            return true;
        }
        let timeline = self.timeline_unwrap();
        // Don't launch the debugger for the initial fork child. No one ever
        // wants that to happen.
        if !timeline.session.done_initial_exec {
            return false;
        }
        let t = match timeline.session.current_task {
            Some(t) => t,
            None => {
                return false;
            },
        };
        if !timeline.can_add_checkpoint() {
            return false;
        }
        // The decision is made on the frame that is about to be replayed:
        // a checkpoint made now has the state from before that frame.
        timeline.session.frame_time > self.target.event && (match self.target.pid {
            None => true,
            Some(pid) => t.tgid == pid,
        }) && (!self.target.require_exec || t.execed) && !timeline.current.in_execution()
    }

    /// Have the replay to the target stop where it is, and the debugger
    /// attached there.
    pub fn interrupt_replay_to_target(&mut self)
        ensures
            final(self)@ == (GdbServerView { stop_replaying_to_target: true, ..old(self)@ }),
    {
        self.stop_replaying_to_target = true;
    }

    /// Activate the debugger at the current state: the thread group of the
    /// current task is the debuggee from now on, unless one is already; the
    /// current process and event become the target of later restarts; the
    /// current task becomes the task that requests are about; and a
    /// checkpoint of the state is kept to restart from. Returns what to tell
    /// the user.
    pub fn activate_debugger(&mut self) -> (notice: ActivationNotice)
        requires
            old(self)@.has_timeline(),
            old(self)@.timeline->Some_0.session.current_task is Some,
        ensures
            final(self)@ == old(self)@.activated(),
            final(self)@.has_timeline(),
            old(self)@.wf() ==> final(self)@.wf(),
            notice == old(self)@.activation_notice(),
    {
        let mut timeline = self.timeline.take().unwrap();
        let event_now: u64 = timeline.session.frame_time;
        let t: TaskInfo = timeline.session.current_task.unwrap();
        let notice = if self.target.event > 0 || self.target.pid.is_some() {
            if self.stop_replaying_to_target {
                ActivationNotice::Interrupted { tgid: t.tgid, event: event_now }
            } else {
                ActivationNotice::ReachedTarget { tgid: t.tgid, event: event_now }
            }
        } else {
            ActivationNotice::Quiet
        };
        // The current process and event are the target of the next replay,
        // if the debugger restarts: a later replay is then known to have
        // reached this state without replaying up to it.
        if self.debuggee_tguid.is_none() {
            self.debuggee_tguid = Some(t.tguid);
        }
        self.target.pid = Some(t.tgid);
        self.target.require_exec = false;
        self.target.event = event_now;
        self.last_query_tuid = Some(t.tuid);
        self.last_continue_tuid = Some(t.tuid);
        let can_add_checkpoint = timeline.can_add_checkpoint();
        let checkpoint = if can_add_checkpoint {
            Checkpoint::new(
                &mut timeline,
                self.last_continue_tuid,
                ExplicitCheckpoint::Explicit,
                "???",
            )
        } else {
            Checkpoint::new(
                &mut timeline,
                self.last_continue_tuid,
                ExplicitCheckpoint::NotExplicit,
                "???",
            )
        };
        self.debugger_restart_checkpoint = Some(checkpoint);
        proof {
            let t0 = old(self)@.timeline->Some_0;
            lemma_with_mark(t0.marks, t0.current);
            if old(self)@.wf() {
                assert forall|id: u64| #[trigger]
                    old(self)@.checkpoints.dom().contains(id) implies timeline@.marks.contains(
                    old(self)@.checkpoints[id].mark,
                ) by {
                    lemma_marks_kept(t0, t0.current, t0.session, old(self)@.checkpoints[id].mark);
                }
            }
        }
        self.timeline = Some(timeline);
        assert(self@.checkpoints == old(self)@.checkpoints);
        notice
    }
}

/// The read of `len` bytes at `addr` covers the word at the stack pointer,
/// while the debuggee runs the recorder's stubs.
pub open spec fn hides_stack_word(regs: Registers, in_patch_stubs: bool, addr: u64, len: usize)
    -> bool {
    regs.sp >= addr && regs.sp + word_size_spec(regs.arch) <= addr + len && in_patch_stubs
}

/// The bytes that answer a request to read `len` bytes at `addr`: what
/// memory holds, but zeros in place of the word at the stack pointer if it
/// is hidden.
pub open spec fn mem_request_reply(
    regs: Registers,
    in_patch_stubs: bool,
    m: MemImage,
    addr: u64,
    len: usize,
) -> Seq<u8> {
    let plain = memory_reply(m, addr, len);
    Seq::new(
        len as nat,
        |i: int|
            if hides_stack_word(regs, in_patch_stubs, addr, len) && regs.sp - addr <= i < regs.sp
                - addr + word_size_spec(regs.arch) {
                0u8
            } else {
                plain[i]
            },
    )
}

/// `bytes`, then zeros up to `MAX_REGISTER_SIZE`.
pub fn pad(bytes: &Vec<u8>) -> (r: Vec<u8>)
    requires
        bytes@.len() <= MAX_REGISTER_SIZE,
    ensures
        r@ == padded(bytes@),
{
    let mut out: Vec<u8> = Vec::new();
    let mut i: usize = 0;
    while i < MAX_REGISTER_SIZE
        invariant
            i <= MAX_REGISTER_SIZE,
            out@.len() == i,
            forall|k: int|
                0 <= k < i ==> #[trigger] out@[k] == if k < bytes@.len() {
                    bytes@[k]
                } else {
                    0u8
                },
        decreases MAX_REGISTER_SIZE - i,
    {
        if i < bytes.len() {
            out.push(bytes[i]);
        } else {
            out.push(0u8);
        }
        i = i + 1;
    }
    assert(out@ =~= padded(bytes@));
    out
}

impl GdbServerView {
    /// Every checkpoint that the server keeps names a state that the
    /// timeline knows.
    pub open spec fn checkpoints_marked(self) -> bool {
        let marks = self.timeline->Some_0.marks;
        &&& forall|id: u64| #[trigger]
            self.checkpoints.dom().contains(id) ==> marks.contains(self.checkpoints[id].mark)
        &&& self.debugger_restart_checkpoint is Some ==> marks.contains(
            self.debugger_restart_checkpoint->Some_0.mark,
        )
    }

    /// The server has a well-formed timeline that knows the state of every
    /// checkpoint the server keeps.
    pub open spec fn wf(self) -> bool {
        self.has_timeline() && self.checkpoints_marked()
    }

    /// The checkpoint that a request to restart goes to, if it goes to one.
    pub open spec fn checkpoint_to_restore(self, type_: GdbRestartType, param: u64) -> Option<
        CheckpointView,
    > {
        match type_ {
            GdbRestartType::RestartFromCheckpoint => if self.checkpoints.dom().contains(param) {
                Some(self.checkpoints[param])
            } else {
                None
            },
            GdbRestartType::RestartFromPrevious => self.debugger_restart_checkpoint,
            GdbRestartType::RestartFromEvent => None,
        }
    }

    /// The event that a restart from event `param` replays to: `param`, but
    /// not beyond the last event before the final one.
    pub open spec fn restart_event(self, param: u64) -> u64 {
        let last = if self.final_event >= 1 {
            (self.final_event - 1) as u64
        } else {
            0
        };
        if param < last {
            param
        } else {
            last
        }
    }

    /// The server once a restart has begun: the debuggee is not at its end,
    /// nothing stops the replay any more, and the next resumption stops at
    /// once.
    pub open spec fn restarting(self) -> GdbServerView {
        let timeline = self.timeline->Some_0;
        GdbServerView {
            in_debuggee_end_state: false,
            interrupt_pending: true,
            timeline: Some(
                TimelineView { breakpoints: Seq::empty(), watchpoints: Seq::empty(), ..timeline },
            ),
            ..self
        }
    }

    /// The server once the session was taken to checkpoint `c` and is as
    /// `session` says: the checkpoint's task is the task requests are about,
    /// the checkpoint replaces the one restarts went to before, whose hold on
    /// its state is let go, and the state reached is held if it can be.
    pub open spec fn restored_to(self, c: CheckpointView, session: ReplaySessionState)
        -> GdbServerView {
        let before = self.debugger_restart_checkpoint->Some_0;
        let sought = self.timeline->Some_0.sought(c.mark, session);
        let released = if before.is_explicit == ExplicitCheckpoint::Explicit {
            sought.released(before.mark)
        } else {
            sought
        };
        GdbServerView {
            last_query_tuid: c.last_continue_tuid,
            last_continue_tuid: c.last_continue_tuid,
            debugger_restart_checkpoint: Some(c),
            timeline: Some(released.checkpointed()),
            ..self
        }
    }
}

/// Naming the current state, holding it, letting go of a state and moving
/// the session all keep the marks that a timeline has.
pub proof fn lemma_marks_kept(v: TimelineView, m: Mark, session: ReplaySessionState, x: Mark)
    requires
        v.wf(),
        v.marks.contains(x),
    ensures
        v.marked().marks.contains(x),
        v.checkpointed().marks.contains(x),
        v.released(m).marks.contains(x),
        v.sought(m, session).marks.contains(x),
        v.marked().marks.contains(v.current),
        v.checkpointed().marks.contains(v.current),
{
    lemma_with_mark(v.marks, v.current);
}

/// How far a replay to the target has got.
#[derive(Clone, Copy, Debug, PartialEq, Eq, Structural)]
pub enum ToTarget {
    /// The trace ended before the target was reached: no debugger is
    /// launched.
    TraceEnded,
    /// The replay stands at the target.
    AtTarget,
    /// The target lies ahead: replay on.
    KeepReplaying,
}

impl GdbServer {
    /// Begin to restart the replay as `req` asks. A restart from a
    /// checkpoint that does not exist changes nothing and is answered with a
    /// failure. Any other restart forgets the breakpoints and watchpoints and
    /// stops the next resumption at once, and then has the session taken to
    /// the checkpoint, or to the event that was asked for.
    pub fn restart_session(&mut self, req: &GdbRequest) -> (action: RestartAction)
        requires
            old(self)@.has_timeline(),
            old(self)@.connected,
            req.type_ == GdbRequestType::DREQ_RESTART,
            req.value is GdbRequestRestart,
            req.value->GdbRequestRestart_0.type_ == GdbRestartType::RestartFromPrevious ==> old(
                self,
            )@.debugger_restart_checkpoint is Some,
        ensures
            final(self)@.has_timeline(),
            old(self)@.wf() ==> final(self)@.wf(),
            ({
                let restart = req.value->GdbRequestRestart_0;
                let before = old(self)@;
                match restart.type_ {
                    GdbRestartType::RestartFromEvent => {
                        let event = before.restart_event(restart.param);
                        &&& final(self)@ == (GdbServerView {
                            stop_replaying_to_target: false,
                            target: Target { event, ..before.target },
                            ..before.restarting()
                        })
                        &&& action matches RestartAction::SeekToEvent { event_plan }
                        &&& event_plan == if event
                            < before.timeline->Some_0.reverse_execution_barrier_event {
                            Err::<SeekPlan, TimelineError>(TimelineError::BelowBarrier)
                        } else {
                            Ok(
                                before.timeline->Some_0.plan_to(
                                    Mark::before_event_spec(event),
                                ),
                            )
                        }
                    },
                    _ => match before.checkpoint_to_restore(restart.type_, restart.param) {
                        None => action is NotifyRestartFailed && final(self)@ == before,
                        Some(c) => {
                            &&& final(self)@ == before.restarting()
                            &&& action matches RestartAction::SeekToCheckpoint { checkpoint, plan }
                            &&& checkpoint@ == c
                            &&& plan == before.timeline->Some_0.plan_to(c.mark)
                        },
                    },
                }
            }),
    {
        let restart_type = req.restart().type_;
        let param: u64 = req.restart().param;
        let mut maybe_checkpoint_to_restore: Option<Checkpoint> = None;
        match restart_type {
            GdbRestartType::RestartFromCheckpoint => {
                match self.checkpoints.get(&param) {
                    None => {
                        return RestartAction::NotifyRestartFailed;
                    },
                    Some(c) => {
                        assert(self@.checkpoints.dom().contains(param));
                        maybe_checkpoint_to_restore = Some(c.duplicate());
                    },
                }
            },
            GdbRestartType::RestartFromPrevious => {
                maybe_checkpoint_to_restore = Some(
                    self.debugger_restart_checkpoint.as_ref().unwrap().duplicate(),
                );
            },
            GdbRestartType::RestartFromEvent => {},
        }
        let mut timeline = self.timeline.take().unwrap();
        self.in_debuggee_end_state = false;
        timeline.remove_breakpoints_and_watchpoints();
        self.interrupt_pending = true;
        match maybe_checkpoint_to_restore {
            Some(checkpoint) => {
                let plan = timeline.plan_seek(&checkpoint.mark);
                self.timeline = Some(timeline);
                assert(self@.checkpoints == old(self)@.checkpoints);
                RestartAction::SeekToCheckpoint { checkpoint, plan }
            },
            None => {
                self.stop_replaying_to_target = false;
                // The target process stays as it is: the same process is
                // debugged whatever runs when the event is reached.
                let last: u64 = if self.final_event >= 1 {
                    self.final_event - 1
                } else {
                    0
                };
                self.target.event = if param < last {
                    param
                } else {
                    last
                };
                let event_plan = timeline.seek_to_before_event(self.target.event);
                self.timeline = Some(timeline);
                assert(self@.checkpoints == old(self)@.checkpoints);
                RestartAction::SeekToEvent { event_plan }
            },
        }
    }

    /// Finish a restart from a checkpoint, once the session was taken to
    /// `checkpoint` and is as `session` says.
    pub fn checkpoint_restored(&mut self, checkpoint: Checkpoint, session: ReplaySessionState)
        requires
            old(self)@.has_timeline(),
            old(self)@.debugger_restart_checkpoint is Some,
            old(self)@.timeline->Some_0.marks.contains(checkpoint.mark),
        ensures
            final(self)@ == old(self)@.restored_to(checkpoint@, session),
            final(self)@.has_timeline(),
            old(self)@.wf() ==> final(self)@.wf(),
    {
        let mut timeline = self.timeline.take().unwrap();
        let ghost t0 = timeline@;
        timeline.seek_to_mark(&checkpoint.mark, session);
        let ghost t1 = timeline@;
        self.last_query_tuid = checkpoint.last_continue_tuid;
        self.last_continue_tuid = checkpoint.last_continue_tuid;
        let before_mark: Mark = self.debugger_restart_checkpoint.as_ref().unwrap().mark;
        let before_explicit: ExplicitCheckpoint =
            self.debugger_restart_checkpoint.as_ref().unwrap().is_explicit;
        match before_explicit {
            ExplicitCheckpoint::Explicit => {
                timeline.remove_explicit_checkpoint(&before_mark);
            },
            ExplicitCheckpoint::NotExplicit => {},
        }
        let ghost t2 = timeline@;
        self.debugger_restart_checkpoint = Some(checkpoint);
        if timeline.can_add_checkpoint() {
            timeline.add_explicit_checkpoint();
        } else {
            timeline.mark();
        }
        proof {
            assert(t2.marks == t0.marks);
            if old(self)@.wf() {
                assert forall|id: u64| #[trigger]
                    self@.checkpoints.dom().contains(id) implies timeline@.marks.contains(
                    self@.checkpoints[id].mark,
                ) by {
                    assert(old(self)@.checkpoints.dom().contains(id));
                    lemma_marks_kept(t2, t2.current, session, old(self)@.checkpoints[id].mark);
                }
            }
            lemma_marks_kept(t2, t2.current, session, checkpoint.mark);
        }
        self.timeline = Some(timeline);
        assert(self@.checkpoints == old(self)@.checkpoints);
    }

    /// Note a step of the forward replay that follows a restart from an
    /// event: the session now stands at `position` and is as `session` says.
    /// Returns whether the replay has got where the debugger is activated
    /// again: where the last task of the debuggee is about to exit, or at the
    /// target.
    pub fn restart_step(
        &mut self,
        result: &ReplayResult,
        position: Mark,
        session: ReplaySessionState,
    ) -> (done: bool)
        requires
            old(self)@.has_timeline(),
            old(self)@.target.pid is Some,
            mark_le(old(self)@.timeline->Some_0.current, position),
        ensures
            final(self)@.has_timeline(),
            old(self)@.wf() ==> final(self)@.wf(),
            ({
                let stepped = GdbServerView {
                    timeline: Some(old(self)@.timeline->Some_0.sought(position, session)),
                    ..old(self)@
                };
                let at_end = last_thread_exited(&result.break_status)
                    && result.break_status.task->Some_0.tgid == old(self)@.target.pid->Some_0;
                &&& final(self)@ == (GdbServerView {
                    in_debuggee_end_state: old(self)@.in_debuggee_end_state || at_end,
                    ..stepped
                })
                &&& done == (at_end || stepped.at_target())
            }),
    {
        let mut timeline = self.timeline.take().unwrap();
        timeline.replay_step_forward(position, session);
        self.timeline = Some(timeline);
        assert(self@.checkpoints == old(self)@.checkpoints);
        if is_last_thread_exit(&result.break_status) && result.break_status.task.unwrap().tgid
            == self.target.pid.unwrap() {
            // The debuggee is about to exit. Stop here.
            self.in_debuggee_end_state = true;
            return true;
        }
        self.at_target()
    }

    /// Note a step of the replay towards the target: the session now stands
    /// at `position` and is as `session` says.
    pub fn replay_to_target_step(
        &mut self,
        status: ReplayStatus,
        position: Mark,
        session: ReplaySessionState,
    ) -> (r: ToTarget)
        requires
            old(self)@.has_timeline(),
            mark_le(old(self)@.timeline->Some_0.current, position),
        ensures
            final(self)@.has_timeline(),
            old(self)@.wf() ==> final(self)@.wf(),
            final(self)@ == (GdbServerView {
                timeline: Some(old(self)@.timeline->Some_0.sought(position, session)),
                ..old(self)@
            }),
            r == if status == ReplayStatus::ReplayExited {
                ToTarget::TraceEnded
            } else if final(self)@.at_target() {
                ToTarget::AtTarget
            } else {
                ToTarget::KeepReplaying
            },
    {
        let mut timeline = self.timeline.take().unwrap();
        timeline.replay_step_forward(position, session);
        self.timeline = Some(timeline);
        assert(self@.checkpoints == old(self)@.checkpoints);
        match status {
            ReplayStatus::ReplayExited => ToTarget::TraceEnded,
            ReplayStatus::ReplayContinue => if self.at_target() {
                ToTarget::AtTarget
            } else {
                ToTarget::KeepReplaying
            },
        }
    }

    /// Get ready to serve a debugger at the target: reverse execution will
    /// not go below `first_run_event`, the event at which the debuggee first
    /// ran, if there is one.
    pub fn prepare_to_serve(&mut self, first_run_event: u64)
        requires
            old(self)@.has_timeline(),
        ensures
            final(self)@.has_timeline(),
            old(self)@.wf() ==> final(self)@.wf(),
            final(self)@ == (GdbServerView {
                timeline: Some(
                    if first_run_event > 0 {
                        TimelineView {
                            reverse_execution_barrier_event: first_run_event,
                            ..old(self)@.timeline->Some_0
                        }
                    } else {
                        old(self)@.timeline->Some_0
                    },
                ),
                ..old(self)@
            }),
    {
        let mut timeline = self.timeline.take().unwrap();
        if first_run_event > 0 {
            timeline.set_reverse_execution_barrier_event(first_run_event);
        }
        self.timeline = Some(timeline);
        assert(self@.checkpoints == old(self)@.checkpoints);
    }

    /// Note that a debugger has connected to debug a task of `arch`, on a
    /// host whose CPUID feature leaf has `cpuid_ecx` in `ecx`.
    pub fn await_connection(
        &mut self,
        arch: SupportedArch,
        cpuid_ecx: u32,
        features: GdbConnectionFeatures,
    )
        ensures
            final(self)@ == (GdbServerView {
                connected: true,
                cpu_features: cpu_features_spec(arch, cpuid_ecx),
                features,
                ..old(self)@
            }),
    {
        self.connected = true;
        self.cpu_features = get_cpu_features(arch, cpuid_ecx);
        self.features = features;
    }

    /// Note that the debugger has gone: no debugger is connected, and the
    /// breakpoints and watchpoints that it had set are forgotten.
    pub fn connection_closed(&mut self)
        ensures
            final(self)@ == (GdbServerView {
                connected: false,
                timeline: match old(self)@.timeline {
                    Some(timeline) => Some(
                        TimelineView {
                            breakpoints: Seq::empty(),
                            watchpoints: Seq::empty(),
                            ..timeline
                        },
                    ),
                    None => None,
                },
                ..old(self)@
            }),
            old(self)@.has_timeline() ==> final(self)@.has_timeline(),
            old(self)@.wf() ==> final(self)@.wf(),
    {
        self.connected = false;
        match self.timeline.take() {
            Some(mut timeline) => {
                timeline.remove_breakpoints_and_watchpoints();
                self.timeline = Some(timeline);
            },
            None => {},
        }
        assert(self@.checkpoints == old(self)@.checkpoints);
    }

    /// Decide whether the client is told of the stop that `break_status`
    /// describes, which followed the resumption `req`, and with which
    /// signal.
    ///
    /// A watchpoint, a breakpoint or a finished single step stop with
    /// `SIGTRAP`; a signal stops with itself; the exit of the last task of a
    /// thread group, if the client can run backwards, stops with `SIGKILL`
    /// when running forward and silently when running backward; a task about
    /// to return from exec stops silently, and is the task of the stop. The
    /// client is told if the task of the stop still exists and belongs to the
    /// debuggee, and that task is then the task that requests are about.
    pub fn maybe_notify_stop(&mut self, req: &GdbRequest, break_status: &BreakStatus) -> (r: Option<
        StopNotification,
    >)
        requires
            old(self)@.timeline is Some,
            req.value is GdbRequestCont,
        ensures
            ({
                let before = old(self)@;
                let session = before.timeline->Some_0.session;
                let in_exec = session.next_step_is_successful_exec_exit && session.current_task
                    is Some;
                let reason = stop_reason(
                    break_status,
                    req.value->GdbRequestCont_0.run_direction,
                    before.features.reverse_execution,
                    in_exec,
                    before.stop_siginfo,
                );
                let task = if in_exec {
                    session.current_task
                } else {
                    break_status.task
                };
                let t = task->Some_0;
                let told = reason.0 && task is Some && before.debuggee_tguid == Some(t.tguid);
                &&& final(self)@ == (GdbServerView {
                    stop_siginfo: reason.1,
                    last_continue_tuid: if told {
                        Some(t.tuid)
                    } else {
                        before.last_continue_tuid
                    },
                    last_query_tuid: if told {
                        Some(t.tuid)
                    } else {
                        before.last_query_tuid
                    },
                    ..before
                })
                &&& r == if told {
                    Some(
                        StopNotification {
                            threadid: GdbThreadId { pid: t.tgid, tid: t.rec_tid },
                            sig: reported_signal(reason.1.si_signo),
                            watch_addr: if break_status.watchpoints_hit@.len() > 0 {
                                break_status.watchpoints_hit@[0].addr
                            } else {
                                0
                            },
                        },
                    )
                } else {
                    None
                }
            }),
    {
        let mut do_stop = false;
        let mut watch_addr: u64 = 0;
        if break_status.watchpoints_hit.len() > 0 {
            do_stop = true;
            self.stop_siginfo = SigInfo::new(sigtrap());
            watch_addr = break_status.watchpoints_hit[0].addr;
        }
        if break_status.breakpoint_hit || break_status.singlestep_complete {
            do_stop = true;
            self.stop_siginfo = SigInfo::new(sigtrap());
        }
        match break_status.signal {
            Some(siginfo) => {
                do_stop = true;
                self.stop_siginfo = siginfo;
            },
            None => {},
        }
        if is_last_thread_exit(break_status) && self.features.reverse_execution {
            do_stop = true;
            match req.cont().run_direction {
                RunDirection::RunForward => {
                    self.stop_siginfo = SigInfo::new(sigkill());
                },
                RunDirection::RunBackward => {
                    self.stop_siginfo = SigInfo::new(0);
                },
            }
        }
        let mut task: Option<TaskInfo> = break_status.task;
        match is_in_exec(self.timeline_unwrap()) {
            Some(in_exec_task) => {
                do_stop = true;
                self.stop_siginfo = SigInfo::new(0);
                task = Some(in_exec_task);
            },
            None => {},
        }
        match (task, self.debuggee_tguid) {
            (Some(t), Some(tguid)) => {
                if do_stop && tguid == t.tguid {
                    let signo: i32 = self.stop_siginfo.si_signo;
                    let threadid = get_threadid(&t);
                    self.last_continue_tuid = Some(t.tuid);
                    self.last_query_tuid = Some(t.tuid);
                    let sig = if 1 <= signo && signo <= 64 {
                        Some(signo)
                    } else {
                        None
                    };
                    return Some(StopNotification { threadid, sig, watch_addr });
                }
            },
            _ => {},
        }
        None
    }

    /// Keep a checkpoint of the current state under the number `id`, with
    /// `where_` to tell the user where it was made. The state is held if a
    /// checkpoint can be taken here. A checkpoint that had the number before
    /// is replaced, and its hold let go.
    pub fn add_checkpoint(&mut self, id: u64, where_: &str)
        requires
            old(self)@.has_timeline(),
        ensures
            final(self)@.has_timeline(),
            old(self)@.wf() ==> final(self)@.wf(),
            final(self)@ == old(self)@.with_checkpoint(id, where_@),
    {
        let mut timeline = self.timeline.take().unwrap();
        let ghost t0 = timeline@;
        match self.checkpoints.get(&id) {
            Some(c) => {
                assert(self@.checkpoints.dom().contains(id));
                match c.is_explicit {
                    ExplicitCheckpoint::Explicit => {
                        timeline.remove_explicit_checkpoint(&c.mark);
                    },
                    ExplicitCheckpoint::NotExplicit => {},
                }
            },
            None => {},
        }
        let ghost t1 = timeline@;
        let can = timeline.can_add_checkpoint();
        let checkpoint = if can {
            Checkpoint::new(
                &mut timeline,
                self.last_continue_tuid,
                ExplicitCheckpoint::Explicit,
                where_,
            )
        } else {
            Checkpoint::new(
                &mut timeline,
                self.last_continue_tuid,
                ExplicitCheckpoint::NotExplicit,
                where_,
            )
        };
        let ghost cv = checkpoint@;
        self.checkpoints.insert(id, checkpoint);
        proof {
            assert(self@.checkpoints =~= old(self)@.checkpoints.insert(id, cv));
            assert(t1.marks == t0.marks);
            if old(self)@.wf() {
                assert forall|k: u64| #[trigger]
                    self@.checkpoints.dom().contains(k) implies timeline@.marks.contains(
                    self@.checkpoints[k].mark,
                ) by {
                    if k != id {
                        assert(old(self)@.checkpoints.dom().contains(k));
                        lemma_marks_kept(
                            t1,
                            t1.current,
                            t1.session,
                            old(self)@.checkpoints[k].mark,
                        );
                    } else {
                        lemma_with_mark(t1.marks, t1.current);
                    }
                }
                if old(self)@.debugger_restart_checkpoint is Some {
                    lemma_marks_kept(
                        t1,
                        t1.current,
                        t1.session,
                        old(self)@.debugger_restart_checkpoint->Some_0.mark,
                    );
                }
            }
        }
        self.timeline = Some(timeline);
    }

    /// Drop the checkpoint kept under the number `id`, and let go of its
    /// hold on its state. Returns false, and changes nothing, if there is no
    /// such checkpoint.
    pub fn delete_checkpoint(&mut self, id: u64) -> (found: bool)
        requires
            old(self)@.has_timeline(),
        ensures
            final(self)@.has_timeline(),
            old(self)@.wf() ==> final(self)@.wf(),
            found == old(self)@.checkpoints.dom().contains(id),
            final(self)@ == old(self)@.without_checkpoint(id),
    {
        let mut timeline = self.timeline.take().unwrap();
        let found = match self.checkpoints.get(&id) {
            Some(c) => {
                assert(self@.checkpoints.dom().contains(id));
                match c.is_explicit {
                    ExplicitCheckpoint::Explicit => {
                        timeline.remove_explicit_checkpoint(&c.mark);
                    },
                    ExplicitCheckpoint::NotExplicit => {},
                }
                true
            },
            None => false,
        };
        if found {
            self.checkpoints.remove(&id);
            assert(self@.checkpoints =~= old(self)@.checkpoints.remove(id));
        } else {
            assert(self@.checkpoints =~= old(self)@.checkpoints);
        }
        proof {
            if old(self)@.wf() {
                assert forall|k: u64| #[trigger]
                    self@.checkpoints.dom().contains(k) implies timeline@.marks.contains(
                    self@.checkpoints[k].mark,
                ) by {
                    assert(old(self)@.checkpoints.dom().contains(k));
                }
            }
        }
        self.timeline = Some(timeline);
        found
    }
}

/// Keeping a checkpoint under a new number and dropping it again leaves
/// the checkpoints that the timeline holds, and the table of the server, as
/// they were; the state keeps the name that it was given. Dropping a number
/// that is not kept changes nothing.
///
/// This is stated of every server but one whose timeline can take a
/// checkpoint at the current state, holds one there already, and cannot
/// count one holder more of it.
pub proof fn law_checkpoint_kept_then_dropped(server: GdbServerView, id: u64, where_: Seq<char>)
    requires
        server.has_timeline(),
        !server.checkpoints.dom().contains(id),
        server.timeline->Some_0.can_add_checkpoint() ==> forall|i: int|
            0 <= i < server.timeline->Some_0.checkpoints.len() && (
            #[trigger] server.timeline->Some_0.checkpoints[i]).mark
                == server.timeline->Some_0.current
                ==> server.timeline->Some_0.checkpoints[i].refcount < u32::MAX,
    ensures
        ({
            let after = server.with_checkpoint(id, where_).without_checkpoint(id);
            &&& after.checkpoints == server.checkpoints
            &&& after.timeline->Some_0.checkpoints == server.timeline->Some_0.checkpoints
            &&& after == (GdbServerView {
                timeline: Some(server.timeline->Some_0.marked()),
                ..server
            })
            &&& server.without_checkpoint(id) == server
        }),
{
    let v = server.timeline->Some_0;
    let kept = server.with_checkpoint(id, where_);
    let after = kept.without_checkpoint(id);
    assert(kept.checkpoints.dom().contains(id));
    assert(after.checkpoints =~= server.checkpoints);
    if v.can_add_checkpoint() {
        crate::replay_timeline::law_checkpoint_add_then_remove(v);
        assert(after.timeline->Some_0 == v.checkpointed().released(v.current));
        assert(after.timeline->Some_0 == v.marked());
    }
}

/// The resumption that follows a restart from a checkpoint stops at once:
/// the restart leaves an interrupt pending, the return to the checkpoint
/// keeps it, and the next resumption uses it up, tells the client of a stop,
/// and leaves the timeline at the checkpoint's state.
pub proof fn law_restart_stops_the_next_resumption(
    server: GdbServerView,
    c: CheckpointView,
    session: ReplaySessionState,
    direction: RunDirection,
)
    requires
        server.timeline is Some,
        server.debugger_restart_checkpoint is Some,
    ensures
        ({
            let restored = server.restarting().restored_to(c, session);
            let resumed = restored.resumed(direction);
            &&& server.restarting().interrupt_pending
            &&& restored.interrupt_pending
            &&& restored.timeline->Some_0.current == c.mark
            &&& resumed.1 is StopAtOnce
            &&& !resumed.0.interrupt_pending
            &&& resumed.0.timeline == restored.timeline
            &&& resumed.0.resumed(direction).1 == (ResumeAction::Run { direction })
        }),
{
}

/// A run backwards that meets nothing to stop at ends at the start of what
/// can be replayed, and the client is told of a silent stop there: the
/// search keeps no state, what it reports is the exit of the current task,
/// and for a client that can run backwards that is a stop without a signal
/// if the task is the last of its thread group.
pub proof fn law_reverse_run_without_a_stop_ends_silently(
    from: Mark,
    command: RunCommand,
    barrier_event: u64,
    seen: Seq<(Mark, BreakStatus)>,
    task: TaskInfo,
    reported: BreakStatus,
    previous: SigInfo,
)
    requires
        forall|i: int| 0 <= i < seen.len() ==> !(#[trigger] seen[i]).1.ends_reverse_spec(command),
        reported.is_start_of_replay(Some(task)),
        task.thread_group_size == 1,
    ensures
        observed_all(ReverseStep { from, command, barrier_event, best: None }, seen) == (
        ReverseStep { from, command, barrier_event, best: None }),
        stop_reason(&reported, RunDirection::RunBackward, true, false, previous) == (
            true,
            SigInfo::of_signal(0),
        ),
        reported_signal(0) is None,
    decreases seen.len(),
{
    if seen.len() > 0 {
        let head = seen.drop_last();
        assert forall|i: int| 0 <= i < head.len() implies !(#[trigger] head[i]).1.ends_reverse_spec(
            command,
        ) by {
            assert(head[i] == seen[i]);
        }
        law_reverse_run_without_a_stop_ends_silently(
            from,
            command,
            barrier_event,
            head,
            task,
            reported,
            previous,
        );
        let start = ReverseStep { from, command, barrier_event, best: None };
        let last = seen[seen.len() - 1];
        assert(!last.1.ends_reverse_spec(command));
        assert(observed_all(start, seen) == observed(observed_all(start, head), last.0, last.1));
    }
}

/// Once a thread group is the debuggee it stays the debuggee: neither an
/// activation, nor a restart, nor the return to a checkpoint changes it.
pub proof fn law_debuggee_is_set_once(
    server: GdbServerView,
    c: CheckpointView,
    session: ReplaySessionState,
)
    requires
        server.debuggee_tguid is Some,
    ensures
        server.activated().debuggee_tguid == server.debuggee_tguid,
        server.restarting().debuggee_tguid == server.debuggee_tguid,
        server.restored_to(c, session).debuggee_tguid == server.debuggee_tguid,
{
}

/// For every checkpoint that the server keeps, seeking to the checkpoint's
/// state and naming the state reached gives the checkpoint's mark again.
pub proof fn law_kept_checkpoints_are_reachable(
    server: GdbServerView,
    id: u64,
    session: ReplaySessionState,
)
    requires
        server.wf(),
        server.checkpoints.dom().contains(id),
    ensures
        ({
            let m = server.checkpoints[id].mark;
            let sought = server.timeline->Some_0.sought(m, session);
            &&& sought.current == m
            &&& sought.marked() == sought
            &&& sought.marked().marks.contains(m)
        }),
{
    law_seek_then_mark(
        server.timeline->Some_0,
        server.checkpoints[id].mark,
        session,
    );
}

/// The part of the script loaded into GDB that does not depend on the
/// registered commands: a `restart` command, hooks that note whether the user
/// has resumed the debuggee since the last `run`, and settings that the
/// server relies on.
pub const GDB_RD_SCRIPT: &'static str = r##"
define restart
  run c$arg0
end
document restart
restart at checkpoint N
checkpoints are created with the 'checkpoint' command
end
define hook-run
  rd-hook-run
end
define hookpost-continue
  rd-set-suppress-run-hook 1
end
define hookpost-step
  rd-set-suppress-run-hook 1
end
define hookpost-stepi
  rd-set-suppress-run-hook 1
end
define hookpost-next
  rd-set-suppress-run-hook 1
end
define hookpost-nexti
  rd-set-suppress-run-hook 1
end
define hookpost-finish
  rd-set-suppress-run-hook 1
end
define hookpost-reverse-continue
  rd-set-suppress-run-hook 1
end
define hookpost-reverse-step
  rd-set-suppress-run-hook 1
end
define hookpost-reverse-stepi
  rd-set-suppress-run-hook 1
end
define hookpost-reverse-finish
  rd-set-suppress-run-hook 1
end
define hookpost-run
  rd-set-suppress-run-hook 0
end
set unwindonsignal on
handle SIGURG stop
set prompt (rd)
python
import re
m = re.compile('.* ([0-9]+)\\.([0-9]+)(\\.([0-9]+))?.*').match(gdb.execute('show version', False, True))
ver = int(m.group(1))*10000 + int(m.group(2))*100
if m.group(4):
    ver = ver + int(m.group(4))

if ver == 71100:
    gdb.write('This version of gdb (7.11.0) has known bugs that break rd. Install 7.11.1 or later.\\n', gdb.STDERR)

if ver < 71101:
    gdb.execute('set target-async 0')
    gdb.execute('maint set target-async 0')
end
"##;

/// The part of the script loaded into GDB that does not depend on the
/// registered commands.
pub fn gdb_rd_macros() -> (r: &'static str)
    ensures
        r@ == GDB_RD_SCRIPT@,
{
    GDB_RD_SCRIPT
}

/// The script loaded into GDB when it is launched: the declarations of the
/// registered commands, then `GDB_RD_SCRIPT`.
pub fn gdb_rd_macros_init(handler: &GdbCommandHandler) -> (r: String)
    ensures
        r@ == macro_bindings(
            handler.commands@,
            handler.commands@.len() as int,
        ) + GDB_RD_SCRIPT@,
{
    let mut ss = handler.gdb_macros();
    ss.append(gdb_rd_macros());
    ss
}

impl GdbServer {
    /// The script that GDB is to load before it connects.
    pub fn init_script(handler: &GdbCommandHandler) -> (r: String)
        ensures
            r@ == macro_bindings(
                handler.commands@,
                handler.commands@.len() as int,
            ) + GDB_RD_SCRIPT@,
    {
        gdb_rd_macros_init(handler)
    }
}

/// What to do about a request to resume the debuggee.
#[derive(Clone, Copy, Debug, PartialEq, Eq, Structural)]
pub enum ResumeAction {
    /// Tell the client of a stop at once, without running the debuggee.
    StopAtOnce { stop: StopNotification },
    /// Run the debuggee as the request says.
    Run { direction: RunDirection },
}

/// What came of a request to set or remove a breakpoint or watchpoint.
#[derive(Clone, Copy, Debug, PartialEq, Eq, Structural)]
pub enum WatchOutcome {
    /// It is set now.
    NowSet,
    /// It is not set now.
    NowRemoved,
    /// The request names a negative length: nothing was done.
    Refused,
}

/// The kinds of request that set or remove a software breakpoint.
pub open spec fn is_sw_break_request(req: GdbRequestType) -> bool {
    req == GdbRequestType::DREQ_SET_SW_BREAK || req == GdbRequestType::DREQ_REMOVE_SW_BREAK
}

/// The kinds of request that set something.
pub open spec fn is_set_request(req: GdbRequestType) -> bool {
    req == GdbRequestType::DREQ_SET_SW_BREAK || req == GdbRequestType::DREQ_SET_HW_BREAK || req
        == GdbRequestType::DREQ_SET_WR_WATCH || req == GdbRequestType::DREQ_SET_RD_WATCH || req
        == GdbRequestType::DREQ_SET_RDWR_WATCH
}

/// What a watch request watches for.
pub open spec fn watch_type_of(req: GdbRequestType) -> WatchType {
    match req {
        GdbRequestType::DREQ_SET_HW_BREAK | GdbRequestType::DREQ_REMOVE_HW_BREAK =>
            WatchType::WatchExec,
        GdbRequestType::DREQ_SET_WR_WATCH | GdbRequestType::DREQ_REMOVE_WR_WATCH =>
            WatchType::WatchWrite,
        _ => WatchType::WatchReadWrite,
    }
}

impl GdbServerView {
    /// The server once a checkpoint of the current state is kept under the
    /// number `id`, with `where_` to tell the user where it was made: the
    /// state is held if a checkpoint can be taken, and a checkpoint that had
    /// the number before is replaced, and its hold let go.
    pub open spec fn with_checkpoint(self, id: u64, where_: Seq<char>) -> GdbServerView {
        let timeline = self.timeline->Some_0;
        let cleared = if self.checkpoints.dom().contains(id) && self.checkpoints[id].is_explicit
            == ExplicitCheckpoint::Explicit {
            timeline.released(self.checkpoints[id].mark)
        } else {
            timeline
        };
        GdbServerView {
            timeline: Some(cleared.checkpointed()),
            checkpoints: self.checkpoints.insert(
                id,
                CheckpointView {
                    mark: timeline.current,
                    last_continue_tuid: self.last_continue_tuid,
                    is_explicit: if timeline.can_add_checkpoint() {
                        ExplicitCheckpoint::Explicit
                    } else {
                        ExplicitCheckpoint::NotExplicit
                    },
                    where_,
                },
            ),
            ..self
        }
    }

    /// The server once the checkpoint kept under the number `id` is
    /// dropped, and its hold on its state let go. Nothing changes if there is
    /// no such checkpoint.
    pub open spec fn without_checkpoint(self, id: u64) -> GdbServerView {
        if self.checkpoints.dom().contains(id) {
            GdbServerView {
                timeline: Some(
                    if self.checkpoints[id].is_explicit == ExplicitCheckpoint::Explicit {
                        self.timeline->Some_0.released(self.checkpoints[id].mark)
                    } else {
                        self.timeline->Some_0
                    },
                ),
                checkpoints: self.checkpoints.remove(id),
                ..self
            }
        } else {
            self
        }
    }

    /// The server once it was asked to resume the debuggee in `direction`,
    /// and what is done about it. A pending interrupt is used up: the
    /// debuggee is not run, and the client is told of a stop at once, of the
    /// current task if there is one, silent unless the debuggee is at its
    /// end. Otherwise nothing changes, and the debuggee is run.
    pub open spec fn resumed(self, direction: RunDirection) -> (GdbServerView, ResumeAction) {
        let task = self.timeline->Some_0.session.current_task;
        if self.interrupt_pending {
            (
                GdbServerView {
                    interrupt_pending: false,
                    stop_siginfo: SigInfo::zeroed(),
                    last_query_tuid: if task is Some {
                        Some(task->Some_0.tuid)
                    } else {
                        self.last_query_tuid
                    },
                    last_continue_tuid: if task is Some {
                        Some(task->Some_0.tuid)
                    } else {
                        self.last_continue_tuid
                    },
                    ..self
                },
                ResumeAction::StopAtOnce {
                    stop: StopNotification {
                        threadid: if task is Some {
                            GdbThreadId { pid: task->Some_0.tgid, tid: task->Some_0.rec_tid }
                        } else {
                            GdbThreadId { pid: 0, tid: 0 }
                        },
                        sig: if self.in_debuggee_end_state {
                            Some(9i32)
                        } else {
                            None
                        },
                        watch_addr: 0,
                    },
                },
            )
        } else {
            (self, ResumeAction::Run { direction })
        }
    }

    /// The timeline once the breakpoint or watchpoint that a request names
    /// is set or removed: a software breakpoint at `addr`, or a watchpoint of
    /// `num_bytes` at `addr` of the kind the request says.
    pub open spec fn watch_applied(self, type_: GdbRequestType, addr: u64, num_bytes: usize)
        -> TimelineView {
        let timeline = self.timeline->Some_0;
        let b = Breakpoint { addr };
        let w = Watchpoint { addr, num_bytes, type_: watch_type_of(type_) };
        if is_sw_break_request(type_) {
            TimelineView {
                breakpoints: if is_set_request(type_) {
                    if timeline.breakpoints.contains(b) {
                        timeline.breakpoints
                    } else {
                        timeline.breakpoints.push(b)
                    }
                } else {
                    without(timeline.breakpoints, b)
                },
                ..timeline
            }
        } else {
            TimelineView {
                watchpoints: if is_set_request(type_) {
                    if timeline.watchpoints.contains(w) {
                        timeline.watchpoints
                    } else {
                        timeline.watchpoints.push(w)
                    }
                } else {
                    without(timeline.watchpoints, w)
                },
                ..timeline
            }
        }
    }
}

impl GdbServer {
    /// Note an interrupt from the client: the next resumption stops at once.
    pub fn interrupt(&mut self)
        ensures
            final(self)@ == (GdbServerView { interrupt_pending: true, ..old(self)@ }),
    {
        self.interrupt_pending = true;
    }

    /// Decide what to do about the request `req` to resume the debuggee.
    /// If an interrupt is pending it is used up: the debuggee is not run, and
    /// the client is told of a stop at once, of the current task if there is
    /// one, silent unless the debuggee is at its end, when it is a kill.
    /// Otherwise the debuggee is run in the direction that the request
    /// names.
    pub fn resume(&mut self, req: &GdbRequest) -> (action: ResumeAction)
        requires
            old(self)@.timeline is Some,
            req.value is GdbRequestCont,
        ensures
            (final(self)@, action) == old(self)@.resumed(
                req.value->GdbRequestCont_0.run_direction,
            ),
    {
        if self.interrupt_pending {
            self.interrupt_pending = false;
            self.stop_siginfo = SigInfo::new(0);
            let threadid = match self.timeline_unwrap().session.current_task {
                Some(t) => {
                    self.last_query_tuid = Some(t.tuid);
                    self.last_continue_tuid = Some(t.tuid);
                    get_threadid(&t)
                },
                None => GdbThreadId::any(),
            };
            let sig = if self.in_debuggee_end_state {
                Some(sigkill())
            } else {
                None
            };
            return ResumeAction::StopAtOnce {
                stop: StopNotification { threadid, sig, watch_addr: 0 },
            };
        }
        ResumeAction::Run { direction: req.cont().run_direction }
    }

    /// Set or remove the breakpoint or watchpoint that `req` names: a
    /// software breakpoint, or a watchpoint of the kind that
    /// `watchpoint_type` gives, `req.watch().kind` bytes long. A request
    /// that names a negative length is refused.
    pub fn dispatch_watch_request(&mut self, req: &GdbRequest) -> (r: WatchOutcome)
        requires
            old(self)@.has_timeline(),
            req.value is GdbRequestWatch,
            is_sw_break_request(req.type_) || is_watch_request(req.type_),
        ensures
            final(self)@.has_timeline(),
            old(self)@.wf() ==> final(self)@.wf(),
            req.value->GdbRequestWatch_0.kind < 0 ==> r == WatchOutcome::Refused && final(self)@
                == old(self)@,
            req.value->GdbRequestWatch_0.kind >= 0 ==> final(self)@ == (GdbServerView {
                timeline: Some(
                    old(self)@.watch_applied(
                        req.type_,
                        req.value->GdbRequestWatch_0.addr,
                        req.value->GdbRequestWatch_0.kind as usize,
                    ),
                ),
                ..old(self)@
            }) && r == if is_set_request(req.type_) {
                WatchOutcome::NowSet
            } else {
                WatchOutcome::NowRemoved
            },
    {
        if req.watch().kind < 0 {
            return WatchOutcome::Refused;
        }
        let addr: u64 = req.watch().addr;
        let num_bytes: usize = req.watch().kind as usize;
        let mut timeline = self.timeline.take().unwrap();
        let r = match req.type_ {
            GdbRequestType::DREQ_SET_SW_BREAK => {
                timeline.set_breakpoint(addr);
                WatchOutcome::NowSet
            },
            GdbRequestType::DREQ_REMOVE_SW_BREAK => {
                timeline.clear_breakpoint(addr);
                WatchOutcome::NowRemoved
            },
            GdbRequestType::DREQ_SET_HW_BREAK | GdbRequestType::DREQ_SET_WR_WATCH
            | GdbRequestType::DREQ_SET_RD_WATCH | GdbRequestType::DREQ_SET_RDWR_WATCH => {
                timeline.set_watchpoint(addr, num_bytes, watchpoint_type(req.type_));
                WatchOutcome::NowSet
            },
            _ => {
                timeline.clear_watchpoint(addr, num_bytes, watchpoint_type(req.type_));
                WatchOutcome::NowRemoved
            },
        };
        self.timeline = Some(timeline);
        assert(self@.checkpoints == old(self)@.checkpoints);
        r
    }
}

impl GdbServer {
    /// Add `name` to the symbols whose addresses the debugger is to be asked
    /// for, behind those that wait already. Returns false, and adds nothing,
    /// if the symbol waits already.
    pub fn add_symbol(&mut self, name: String) -> (added: bool)
        ensures
            added == !old(self)@.symbols.contains(name@),
            final(self)@ == (GdbServerView {
                symbols: if added {
                    old(self)@.symbols.push(name@)
                } else {
                    old(self)@.symbols
                },
                ..old(self)@
            }),
            old(self)@.symbols.no_duplicates() ==> final(self)@.symbols.no_duplicates(),
    {
        let mut i: usize = 0;
        while i < self.symbols.len()
            invariant
                i <= self.symbols@.len(),
                *self == *old(self),
                forall|j: int| 0 <= j < i ==> #[trigger] self@.symbols[j] != name@,
            decreases self.symbols@.len() - i,
        {
            if self.symbols[i] == name {
                assert(self@.symbols[i as int] == name@);
                return false;
            }
            i = i + 1;
        }
        let ghost named = name@;
        self.symbols.push(name);
        assert(self@.symbols =~= old(self)@.symbols.push(named));
        assert(self@.checkpoints == old(self)@.checkpoints);
        true
    }

    /// The symbol to ask the debugger for next, which then waits no longer:
    /// the one that was added first. `None` if none waits.
    pub fn next_symbol(&mut self) -> (r: Option<String>)
        ensures
            match r {
                Some(name) => old(self)@.symbols.len() > 0 && name@ == old(self)@.symbols[0]
                    && final(self)@ == (GdbServerView {
                    symbols: old(self)@.symbols.skip(1),
                    ..old(self)@
                }),
                None => old(self)@.symbols.len() == 0 && final(self)@ == old(self)@,
            },
            old(self)@.symbols.no_duplicates() ==> final(self)@.symbols.no_duplicates(),
    {
        if self.symbols.len() == 0 {
            return None;
        }
        let name = self.symbols.remove(0);
        assert(self@.symbols =~= old(self)@.symbols.skip(1));
        assert forall|i: int, j: int|
            0 <= i < self@.symbols.len() && 0 <= j < self@.symbols.len() && i != j
                && old(self)@.symbols.no_duplicates() implies self@.symbols[i]
            != self@.symbols[j] by {
            assert(self@.symbols[i] == old(self)@.symbols[i + 1]);
            assert(self@.symbols[j] == old(self)@.symbols[j + 1]);
        }
        assert(self@.checkpoints == old(self)@.checkpoints);
        Some(name)
    }
}

/// `fd` is the least descriptor that `files` does not hold.
pub open spec fn is_free_descriptor(files: Map<i32, i32>, fd: i32) -> bool {
    &&& fd >= 0
    &&& !files.dom().contains(fd)
    &&& forall|k: i32| 0 <= k < fd ==> #[trigger] files.dom().contains(k)
}

impl GdbServer {
    /// Look at the files of process `pid` from now on; 0 for the files of
    /// the debuggee.
    pub fn set_file_scope(&mut self, pid: i32)
        ensures
            final(self)@ == (GdbServerView { file_scope_pid: pid, ..old(self)@ }),
    {
        self.file_scope_pid = pid;
    }

    /// Keep `handle`, the server's descriptor of a file that the debugger
    /// has opened, and return the descriptor by which the debugger is to know
    /// the file: the least that is not in use. `None`, and nothing kept, if
    /// all are in use.
    pub fn open_file(&mut self, handle: i32) -> (r: Option<i32>)
        ensures
            match r {
                Some(fd) => is_free_descriptor(old(self)@.files, fd) && final(self)@ == (
                GdbServerView { files: old(self)@.files.insert(fd, handle), ..old(self)@ }),
                None => final(self)@ == old(self)@ && forall|k: i32|
                    0 <= k ==> #[trigger] old(self)@.files.dom().contains(k),
            },
    {
        let mut fd: i32 = 0;
        while fd < i32::MAX && self.files.contains_key(&fd)
            invariant
                0 <= fd <= i32::MAX,
                *self == *old(self),
                forall|k: i32| 0 <= k < fd ==> #[trigger] self@.files.dom().contains(k),
            decreases i32::MAX - fd,
        {
            fd = fd + 1;
        }
        if self.files.contains_key(&fd) {
            return None;
        }
        self.files.insert(fd, handle);
        assert(self@.checkpoints == old(self)@.checkpoints);
        Some(fd)
    }

    /// The server's descriptor of the file that the debugger knows as `fd`.
    pub fn file(&self, fd: i32) -> (r: Option<i32>)
        ensures
            r == if self@.files.dom().contains(fd) {
                Some(self@.files[fd])
            } else {
                None
            },
    {
        match self.files.get(&fd) {
            Some(handle) => Some(*handle),
            None => None,
        }
    }

    /// Forget the file that the debugger knows as `fd`. Returns the
    /// server's descriptor of it, which is then to be closed, or `None` if
    /// the debugger has no such file open.
    pub fn close_file(&mut self, fd: i32) -> (r: Option<i32>)
        ensures
            r == if old(self)@.files.dom().contains(fd) {
                Some(old(self)@.files[fd])
            } else {
                None
            },
            final(self)@ == (GdbServerView { files: old(self)@.files.remove(fd), ..old(self)@ }),
    {
        let r = self.files.remove(&fd);
        assert(self@.checkpoints == old(self)@.checkpoints);
        r
    }
}

} // verus!
