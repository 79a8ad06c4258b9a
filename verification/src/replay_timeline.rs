//! A replay timeline: the states of a replay that have been given a name,
//! the checkpoints from which the replay can be restarted, and where the
//! replay stands now.
//!
//! A replay only ever runs forward. The timeline makes it look as if it ran
//! both ways: to go back, the replay is restarted from the nearest
//! checkpoint before the wanted state and run forward to it. The timeline
//! decides where to restart and when to stop; whoever drives the replay
//! session does the running and tells the timeline where the session got to.

use crate::kernel_abi::SupportedArch;
use crate::record_task::{TaskUid, ThreadGroupUid};
use crate::registers::Registers;
use vstd::prelude::*;

verus! {

/// A state of the replay: the trace event being replayed, the ticks the
/// task has run, how far into the event's steps the replay is, and the
/// registers of the task. Two marks are the same exactly if they agree in
/// all four. Marks are ordered as the replay passes through them.
#[derive(Clone, Copy, Debug, PartialEq, Eq, Structural)]
pub struct Mark {
    pub event: u64,
    pub ticks: u64,
    pub step_key: u32,
    pub regs: Registers,
}

/// The order of states that share event, ticks and step, and are told apart
/// by their registers alone. The replay passes through several such states
/// inside a repeated string instruction, which runs the count register down:
/// the state with the greater count comes first. Registers that differ
/// otherwise stand in a fixed order, register by register, so that of two
/// different states one always comes first.
pub open spec fn regs_before(a: Registers, b: Registers) -> bool {
    if a.cx != b.cx {
        a.cx > b.cx
    } else if a.ip != b.ip {
        a.ip < b.ip
    } else if a.ax != b.ax {
        a.ax < b.ax
    } else if a.bx != b.bx {
        a.bx < b.bx
    } else if a.dx != b.dx {
        a.dx < b.dx
    } else if a.si != b.si {
        a.si < b.si
    } else if a.di != b.di {
        a.di < b.di
    } else if a.bp != b.bp {
        a.bp < b.bp
    } else if a.sp != b.sp {
        a.sp < b.sp
    } else if a.r8 != b.r8 {
        a.r8 < b.r8
    } else if a.r9 != b.r9 {
        a.r9 < b.r9
    } else if a.r10 != b.r10 {
        a.r10 < b.r10
    } else if a.r11 != b.r11 {
        a.r11 < b.r11
    } else if a.r12 != b.r12 {
        a.r12 < b.r12
    } else if a.r13 != b.r13 {
        a.r13 < b.r13
    } else if a.r14 != b.r14 {
        a.r14 < b.r14
    } else if a.r15 != b.r15 {
        a.r15 < b.r15
    } else if a.flags != b.flags {
        a.flags < b.flags
    } else if a.orig_ax != b.orig_ax {
        a.orig_ax < b.orig_ax
    } else if a.cs != b.cs {
        a.cs < b.cs
    } else if a.ss != b.ss {
        a.ss < b.ss
    } else if a.ds != b.ds {
        a.ds < b.ds
    } else if a.es != b.es {
        a.es < b.es
    } else if a.fs != b.fs {
        a.fs < b.fs
    } else if a.gs != b.gs {
        a.gs < b.gs
    } else if a.fs_base != b.fs_base {
        a.fs_base < b.fs_base
    } else if a.gs_base != b.gs_base {
        a.gs_base < b.gs_base
    } else {
        a.arch == SupportedArch::X86 && b.arch == SupportedArch::X64
    }
}

/// Whether `a` comes before `b` in the order of `regs_before`.
pub fn registers_come_before(a: &Registers, b: &Registers) -> (r: bool)
    ensures
        r == regs_before(*a, *b),
{
    if a.cx != b.cx {
        a.cx > b.cx
    } else if a.ip != b.ip {
        a.ip < b.ip
    } else if a.ax != b.ax {
        a.ax < b.ax
    } else if a.bx != b.bx {
        a.bx < b.bx
    } else if a.dx != b.dx {
        a.dx < b.dx
    } else if a.si != b.si {
        a.si < b.si
    } else if a.di != b.di {
        a.di < b.di
    } else if a.bp != b.bp {
        a.bp < b.bp
    } else if a.sp != b.sp {
        a.sp < b.sp
    } else if a.r8 != b.r8 {
        a.r8 < b.r8
    } else if a.r9 != b.r9 {
        a.r9 < b.r9
    } else if a.r10 != b.r10 {
        a.r10 < b.r10
    } else if a.r11 != b.r11 {
        a.r11 < b.r11
    } else if a.r12 != b.r12 {
        a.r12 < b.r12
    } else if a.r13 != b.r13 {
        a.r13 < b.r13
    } else if a.r14 != b.r14 {
        a.r14 < b.r14
    } else if a.r15 != b.r15 {
        a.r15 < b.r15
    } else if a.flags != b.flags {
        a.flags < b.flags
    } else if a.orig_ax != b.orig_ax {
        a.orig_ax < b.orig_ax
    } else if a.cs != b.cs {
        a.cs < b.cs
    } else if a.ss != b.ss {
        a.ss < b.ss
    } else if a.ds != b.ds {
        a.ds < b.ds
    } else if a.es != b.es {
        a.es < b.es
    } else if a.fs != b.fs {
        a.fs < b.fs
    } else if a.gs != b.gs {
        a.gs < b.gs
    } else if a.fs_base != b.fs_base {
        a.fs_base < b.fs_base
    } else if a.gs_base != b.gs_base {
        a.gs_base < b.gs_base
    } else {
        match (a.arch, b.arch) {
            (SupportedArch::X86, SupportedArch::X64) => true,
            _ => false,
        }
    }
}

/// `a` comes before `b` in the replay.
pub open spec fn mark_lt(a: Mark, b: Mark) -> bool {
    a.event < b.event || (a.event == b.event && (a.ticks < b.ticks || (a.ticks == b.ticks && (
    a.step_key < b.step_key || (a.step_key == b.step_key && regs_before(a.regs, b.regs))))))
}

/// `a` is `b` or comes before it.
pub open spec fn mark_le(a: Mark, b: Mark) -> bool {
    a == b || mark_lt(a, b)
}

impl Mark {
    /// Whether this state comes before `other` in the replay.
    pub fn before(&self, other: &Mark) -> (r: bool)
        ensures
            r == mark_lt(*self, *other),
    {
        self.event < other.event || (self.event == other.event && (self.ticks < other.ticks || (
        self.ticks == other.ticks && (self.step_key < other.step_key || (self.step_key
            == other.step_key && registers_come_before(&self.regs, &other.regs))))))
    }

    /// The registers that come last in the order of `regs_before`.
    pub open spec fn last_registers() -> Registers {
        Registers {
            arch: SupportedArch::X64,
            ax: u64::MAX,
            bx: u64::MAX,
            cx: 0,
            dx: u64::MAX,
            si: u64::MAX,
            di: u64::MAX,
            bp: u64::MAX,
            sp: u64::MAX,
            r8: u64::MAX,
            r9: u64::MAX,
            r10: u64::MAX,
            r11: u64::MAX,
            r12: u64::MAX,
            r13: u64::MAX,
            r14: u64::MAX,
            r15: u64::MAX,
            ip: u64::MAX,
            flags: u64::MAX,
            orig_ax: u64::MAX,
            cs: u64::MAX,
            ss: u64::MAX,
            ds: u64::MAX,
            es: u64::MAX,
            fs: u64::MAX,
            gs: u64::MAX,
            fs_base: u64::MAX,
            gs_base: u64::MAX,
        }
    }

    /// The last of the states at which `event` is about to be replayed:
    /// every state with no tick and no step of the event behind it is this
    /// one or comes before it.
    pub open spec fn before_event_spec(event: u64) -> Mark {
        Mark { event, ticks: 0, step_key: 0, regs: Self::last_registers() }
    }

    /// The last of the states at which `event` is about to be replayed.
    pub fn before_event(event: u64) -> (r: Mark)
        ensures
            r == Self::before_event_spec(event),
    {
        let all: u64 = u64::MAX;
        Mark {
            event,
            ticks: 0,
            step_key: 0,
            regs: Registers {
                arch: SupportedArch::X64,
                ax: all,
                bx: all,
                cx: 0,
                dx: all,
                si: all,
                di: all,
                bp: all,
                sp: all,
                r8: all,
                r9: all,
                r10: all,
                r11: all,
                r12: all,
                r13: all,
                r14: all,
                r15: all,
                ip: all,
                flags: all,
                orig_ax: all,
                cs: all,
                ss: all,
                ds: all,
                es: all,
                fs: all,
                gs: all,
                fs_base: all,
                gs_base: all,
            },
        }
    }

    /// Whether the replay is in the middle of replaying its event here.
    pub open spec fn in_execution_spec(self) -> bool {
        self.step_key != 0
    }

    /// Whether the replay is in the middle of replaying its event here.
    pub fn in_execution(&self) -> (r: bool)
        ensures
            r == self.in_execution_spec(),
    {
        self.step_key != 0
    }
}

/// Whether `b` is `a` or comes after it in the replay.
pub fn mark_order(a: &Mark, b: &Mark) -> (r: bool)
    ensures
        r == mark_le(*a, *b),
{
    *a == *b || a.before(b)
}

/// The order of marks is a strict total order: no state comes before
/// itself, what comes before an earlier state comes before a later one, and
/// of two different states one comes before the other.
pub proof fn law_marks_are_totally_ordered(a: Mark, b: Mark, c: Mark)
    ensures
        !mark_lt(a, a),
        mark_lt(a, b) && mark_lt(b, c) ==> mark_lt(a, c),
        mark_lt(a, b) || a == b || mark_lt(b, a),
        !(mark_lt(a, b) && mark_lt(b, a)),
{
}

/// The states that are at or before the last state at which `event` is
/// about to be replayed are the states of earlier events, and the states of
/// the event itself that have no tick and no step of it behind them.
pub proof fn law_before_event_is_the_last_before(event: u64, m: Mark)
    ensures
        mark_le(m, Mark::before_event_spec(event)) <==> m.event < event || (m.event == event
            && m.ticks == 0 && m.step_key == 0),
{
}

/// Each mark of `s` comes before the next.
pub open spec fn ascending(s: Seq<Mark>) -> bool {
    forall|i: int, j: int| 0 <= i < j < s.len() ==> mark_lt(#[trigger] s[i], #[trigger] s[j])
}

/// How many marks of `s` come before `m`.
pub open spec fn rank(s: Seq<Mark>, m: Mark) -> int
    decreases s.len(),
{
    if s.len() == 0 {
        0
    } else {
        rank(s.drop_last(), m) + if mark_lt(s.last(), m) {
            1int
        } else {
            0int
        }
    }
}

/// `s` with `m` in its place, if it is not there yet.
pub open spec fn with_mark(s: Seq<Mark>, m: Mark) -> Seq<Mark> {
    let p = rank(s, m);
    if p < s.len() && s[p] == m {
        s
    } else {
        s.insert(p, m)
    }
}

/// In an ascending sequence the marks before `m` are the first `rank`.
pub proof fn lemma_rank(s: Seq<Mark>, m: Mark)
    requires
        ascending(s),
    ensures
        0 <= rank(s, m) <= s.len(),
        forall|i: int| 0 <= i < rank(s, m) ==> mark_lt(#[trigger] s[i], m),
        forall|i: int| rank(s, m) <= i < s.len() ==> !mark_lt(#[trigger] s[i], m),
    decreases s.len(),
{
    if s.len() > 0 {
        let head = s.drop_last();
        assert forall|i: int, j: int| 0 <= i < j < head.len() implies mark_lt(
            #[trigger] head[i],
            #[trigger] head[j],
        ) by {
            assert(head[i] == s[i] && head[j] == s[j]);
        }
        lemma_rank(head, m);
        assert forall|i: int| 0 <= i < rank(s, m) implies mark_lt(#[trigger] s[i], m) by {
            if i < head.len() {
                assert(head[i] == s[i]);
                if i >= rank(head, m) {
                    // Then the last mark comes before `m`, and so does this one.
                    assert(mark_lt(s[i], s[s.len() - 1]) || i == s.len() - 1);
                }
            }
        }
        assert forall|i: int| rank(s, m) <= i < s.len() implies !mark_lt(#[trigger] s[i], m) by {
            if i < head.len() {
                assert(head[i] == s[i]);
                if mark_lt(s.last(), m) {
                    assert(rank(head, m) <= head.len());
                }
            } else if mark_lt(s.last(), m) {
                // Every mark before the last comes before `m` too.
                assert(rank(s, m) == rank(head, m) + 1);
                if rank(head, m) < head.len() {
                    assert(!mark_lt(head[rank(head, m)], m));
                    assert(head[rank(head, m)] == s[rank(head, m)]);
                    assert(mark_lt(s[rank(head, m)], s[s.len() - 1]));
                }
            }
        }
    }
}

/// The place of a mark in an ascending sequence is its rank.
pub proof fn lemma_rank_of_member(s: Seq<Mark>, i: int)
    requires
        ascending(s),
        0 <= i < s.len(),
    ensures
        rank(s, s[i]) == i,
{
    lemma_rank(s, s[i]);
    let p = rank(s, s[i]);
    if p < i {
        assert(!mark_lt(s[p], s[i]));
        assert(mark_lt(s[p], s[i]));
    } else if p > i {
        assert(mark_lt(s[i], s[i]));
    }
}

/// Adding a mark keeps the sequence ascending, keeps what was in it, and
/// puts the mark at its rank.
pub proof fn lemma_with_mark(s: Seq<Mark>, m: Mark)
    requires
        ascending(s),
    ensures
        ascending(with_mark(s, m)),
        with_mark(s, m).contains(m),
        rank(with_mark(s, m), m) == rank(s, m),
        with_mark(s, m)[rank(s, m)] == m,
        forall|x: Mark| s.contains(x) ==> #[trigger] with_mark(s, m).contains(x),
        forall|x: Mark| #[trigger] with_mark(s, m).contains(x) ==> s.contains(x) || x == m,
{
    lemma_rank(s, m);
    let p = rank(s, m);
    let t = with_mark(s, m);
    if p < s.len() && s[p] == m {
        assert(t[p] == m);
    } else {
        assert(t[p] == m);
        assert forall|i: int, j: int| 0 <= i < j < t.len() implies mark_lt(
            #[trigger] t[i],
            #[trigger] t[j],
        ) by {
            if j < p {
                assert(t[i] == s[i] && t[j] == s[j]);
            } else if j == p {
                assert(t[i] == s[i]);
            } else if i < p {
                assert(t[i] == s[i] && t[j] == s[j - 1]);
                if i < j - 1 {
                } else {
                    assert(!mark_lt(s[j - 1], m));
                    assert(mark_lt(s[i], m));
                }
            } else if i == p {
                assert(t[j] == s[j - 1]);
                assert(!mark_lt(s[j - 1], m));
                if j - 1 == p {
                } else {
                    assert(mark_lt(s[p], s[j - 1]));
                }
            } else {
                assert(t[i] == s[i - 1] && t[j] == s[j - 1]);
            }
        }
        assert forall|x: Mark| s.contains(x) implies #[trigger] t.contains(x) by {
            let k = choose|k: int| 0 <= k < s.len() && s[k] == x;
            if k < p {
                assert(t[k] == x);
            } else {
                assert(t[k + 1] == x);
            }
        }
        assert forall|x: Mark| #[trigger] t.contains(x) implies s.contains(x) || x == m by {
            let k = choose|k: int| 0 <= k < t.len() && t[k] == x;
            if k < p {
                assert(s[k] == x);
            } else if k > p {
                assert(s[k - 1] == x);
            }
        }
    }
    lemma_rank_of_member(t, p);
}

/// A checkpoint that is held: the state it restores, and how many holders
/// it has.
#[derive(Clone, Copy, Debug, PartialEq, Eq, Structural)]
pub struct CheckpointPin {
    pub mark: Mark,
    pub refcount: u32,
}

/// The marks of a run of pins.
pub open spec fn pin_marks(pins: Seq<CheckpointPin>) -> Seq<Mark> {
    Seq::new(pins.len(), |i: int| pins[i].mark)
}

/// The pins with one holder more of the checkpoint at `m`. Nothing changes
/// where the count of holders is at its limit.
pub open spec fn pinned(pins: Seq<CheckpointPin>, m: Mark) -> Seq<CheckpointPin> {
    let p = rank(pin_marks(pins), m);
    if p < pins.len() && pins[p].mark == m {
        if pins[p].refcount < u32::MAX {
            pins.update(p, CheckpointPin { mark: m, refcount: (pins[p].refcount + 1) as u32 })
        } else {
            pins
        }
    } else {
        pins.insert(p, CheckpointPin { mark: m, refcount: 1 })
    }
}

/// The pins with one holder less of the checkpoint at `m`: the checkpoint
/// goes when its last holder does. Nothing changes where `m` has no
/// checkpoint.
pub open spec fn unpinned(pins: Seq<CheckpointPin>, m: Mark) -> Seq<CheckpointPin> {
    let p = rank(pin_marks(pins), m);
    if p < pins.len() && pins[p].mark == m {
        if pins[p].refcount > 1 {
            pins.update(p, CheckpointPin { mark: m, refcount: (pins[p].refcount - 1) as u32 })
        } else {
            pins.remove(p)
        }
    } else {
        pins
    }
}

/// The last checkpoint at or before `m`, if there is one.
pub open spec fn nearest_checkpoint(pins: Seq<CheckpointPin>, m: Mark) -> Option<Mark> {
    let p = rank(pin_marks(pins), m);
    if p < pins.len() && pins[p].mark == m {
        Some(m)
    } else if p > 0 {
        Some(pins[p - 1].mark)
    } else {
        None
    }
}

/// What is known of a task of the replay session.
#[derive(Clone, Copy, Debug, PartialEq, Eq, Structural)]
pub struct TaskInfo {
    pub tuid: TaskUid,
    pub tguid: ThreadGroupUid,
    /// The id of the task's thread group.
    pub tgid: i32,
    /// The task's id at record time.
    pub rec_tid: i32,
    pub arch: SupportedArch,
    /// Whether the task has called exec.
    pub execed: bool,
    /// How many tasks the task's thread group has.
    pub thread_group_size: usize,
}

/// What the timeline knows of the replay session it drives.
#[derive(Clone, Copy, Debug, PartialEq, Eq, Structural)]
pub struct ReplaySessionState {
    /// Whether the first exec of the replay has happened.
    pub done_initial_exec: bool,
    /// The task that runs next, if any.
    pub current_task: Option<TaskInfo>,
    /// The time of the trace frame that is replayed next.
    pub frame_time: u64,
    /// Whether the session is in a state that can be cloned.
    pub can_clone: bool,
    /// Whether the next step is the exit of a successful exec.
    pub next_step_is_successful_exec_exit: bool,
}

/// An address at which the replay stops.
#[derive(Clone, Copy, Debug, PartialEq, Eq, Structural)]
pub struct Breakpoint {
    pub addr: u64,
}

/// What kind of access a watchpoint watches for.
#[derive(Clone, Copy, Debug, PartialEq, Eq, Structural)]
pub enum WatchType {
    WatchExec,
    WatchWrite,
    WatchReadWrite,
}

/// A range of memory whose access stops the replay.
#[derive(Clone, Copy, Debug, PartialEq, Eq, Structural)]
pub struct Watchpoint {
    pub addr: u64,
    pub num_bytes: usize,
    pub type_: WatchType,
}

/// Which way to run.
#[derive(Clone, Copy, Debug, PartialEq, Eq, Structural)]
pub enum RunDirection {
    RunForward,
    RunBackward,
}

/// How far to run the replay in one step.
#[derive(Clone, Copy, Debug, PartialEq, Eq, Structural)]
pub enum RunCommand {
    /// Until something stops it.
    RunContinue,
    /// For one instruction.
    RunSinglestep,
    /// To the next syscall.
    RunSyscall,
}

/// A signal as the kernel describes it.
#[derive(Clone, Copy, Debug, PartialEq, Eq, Structural)]
pub struct SigInfo {
    pub si_signo: i32,
    pub si_errno: i32,
    pub si_code: i32,
    pub si_addr: u64,
}

impl SigInfo {
    /// No signal.
    pub open spec fn zeroed() -> SigInfo {
        SigInfo { si_signo: 0, si_errno: 0, si_code: 0, si_addr: 0 }
    }

    /// The bare signal `signo`.
    pub open spec fn of_signal(signo: i32) -> SigInfo {
        SigInfo { si_signo: signo, si_errno: 0, si_code: 0, si_addr: 0 }
    }

    pub fn new(signo: i32) -> (r: SigInfo)
        ensures
            r == SigInfo::of_signal(signo),
    {
        SigInfo { si_signo: signo, si_errno: 0, si_code: 0, si_addr: 0 }
    }
}

/// A watchpoint that was hit.
#[derive(Clone, Copy, Debug, PartialEq, Eq, Structural)]
pub struct WatchConfig {
    pub addr: u64,
    pub num_bytes: usize,
    pub type_: WatchType,
}

/// Why a step of the replay stopped.
pub struct BreakStatus {
    /// The task on which the stop happened, if it still exists.
    pub task: Option<TaskInfo>,
    /// The watchpoints that were hit, in the order they were hit.
    pub watchpoints_hit: Vec<WatchConfig>,
    pub breakpoint_hit: bool,
    pub singlestep_complete: bool,
    /// The signal that was delivered, if any.
    pub signal: Option<SigInfo>,
    /// Whether the task exited.
    pub task_exit: bool,
}

impl BreakStatus {
    /// Whether the replay stopped for a reason that a run backwards can end
    /// at: a watchpoint or a breakpoint was hit, a signal was delivered, or
    /// the task exited.
    pub open spec fn is_stop_site_spec(self) -> bool {
        self.watchpoints_hit@.len() > 0 || self.breakpoint_hit || self.signal is Some
            || self.task_exit
    }

    /// Whether the replay stopped for a reason that a run backwards can end
    /// at.
    pub fn is_stop_site(&self) -> (r: bool)
        ensures
            r == self.is_stop_site_spec(),
    {
        self.watchpoints_hit.len() > 0 || self.breakpoint_hit || self.signal.is_some()
            || self.task_exit
    }

    /// Whether a run backwards by `command` can end where the replay
    /// stopped with this status: where it stopped for a reason or, when going
    /// back by one instruction, where a single step was completed.
    pub open spec fn ends_reverse_spec(self, command: RunCommand) -> bool {
        self.is_stop_site_spec() || (command == RunCommand::RunSinglestep
            && self.singlestep_complete)
    }

    /// Whether a run backwards by `command` can end where the replay
    /// stopped with this status.
    pub fn ends_reverse(&self, command: RunCommand) -> (r: bool)
        ensures
            r == self.ends_reverse_spec(command),
    {
        let stepping = match command {
            RunCommand::RunSinglestep => true,
            _ => false,
        };
        self.is_stop_site() || (stepping && self.singlestep_complete)
    }

    /// `self` is what is reported of a replay that went back to the start
    /// of what can be replayed, with `task` as its current task: the exit of
    /// that task, and nothing else.
    pub open spec fn is_start_of_replay(self, task: Option<TaskInfo>) -> bool {
        &&& self.task == task
        &&& self.watchpoints_hit@.len() == 0
        &&& !self.breakpoint_hit
        &&& !self.singlestep_complete
        &&& self.signal is None
        &&& self.task_exit
    }

    /// What is reported of a replay that went back to the start of what can
    /// be replayed, with `task` as its current task.
    pub fn start_of_replay(task: Option<TaskInfo>) -> (r: BreakStatus)
        ensures
            r.is_start_of_replay(task),
    {
        BreakStatus {
            task,
            watchpoints_hit: Vec::new(),
            breakpoint_hit: false,
            singlestep_complete: false,
            signal: None,
            task_exit: true,
        }
    }
}

/// Whether the replay can go on.
#[derive(Clone, Copy, Debug, PartialEq, Eq, Structural)]
pub enum ReplayStatus {
    /// Some execution was replayed, and more may follow.
    ReplayContinue,
    /// The replay ran off the end of the trace.
    ReplayExited,
}

/// What a step of the replay did.
pub struct ReplayResult {
    pub status: ReplayStatus,
    pub break_status: BreakStatus,
}

/// How to get the session to a state: restart it from the checkpoint at
/// `restart_from`, or from the start of the trace if there is none, and run
/// it forward to `target`.
#[derive(Clone, Copy, Debug, PartialEq, Eq, Structural)]
pub struct SeekPlan {
    pub restart_from: Option<Mark>,
    pub target: Mark,
}

/// Why the timeline refuses to go somewhere.
#[derive(Clone, Copy, Debug, PartialEq, Eq, Structural)]
pub enum TimelineError {
    /// The event lies before the barrier below which nothing is replayed
    /// again. Callers treat this as the start of time.
    BelowBarrier,
}

/// A single step that the replay is known to have made without a signal:
/// from one named state to another, with the registers that the task had
/// before the step.
#[derive(Clone, Copy, Debug, PartialEq, Eq, Structural)]
pub struct KnownStep {
    pub from: Mark,
    pub to: Mark,
    pub regs: Registers,
}

/// The first of `steps` that leads to `to`, if there is one.
pub open spec fn step_to(steps: Seq<KnownStep>, to: Mark) -> Option<KnownStep>
    decreases steps.len(),
{
    if steps.len() == 0 {
        None
    } else if steps[0].to == to {
        Some(steps[0])
    } else {
        step_to(steps.skip(1), to)
    }
}

pub struct ReplayTimeline {
    /// Where the session stands.
    pub current: Mark,
    pub session: ReplaySessionState,
    /// The states that have a name, in the order of the replay.
    pub marks: Vec<Mark>,
    /// The checkpoints that are held, in the order of the replay.
    pub checkpoints: Vec<CheckpointPin>,
    /// Reverse execution never goes below this event.
    pub reverse_execution_barrier_event: u64,
    pub breakpoints: Vec<Breakpoint>,
    pub watchpoints: Vec<Watchpoint>,
    /// The single steps between named states that are known, at most one
    /// to each state.
    pub known_steps: Vec<KnownStep>,
}

/// What a `ReplayTimeline` says.
pub struct TimelineView {
    pub current: Mark,
    pub session: ReplaySessionState,
    pub marks: Seq<Mark>,
    pub checkpoints: Seq<CheckpointPin>,
    pub reverse_execution_barrier_event: u64,
    pub breakpoints: Seq<Breakpoint>,
    pub watchpoints: Seq<Watchpoint>,
    pub known_steps: Seq<KnownStep>,
}

impl View for ReplayTimeline {
    type V = TimelineView;

    open spec fn view(&self) -> TimelineView {
        TimelineView {
            current: self.current,
            session: self.session,
            marks: self.marks@,
            checkpoints: self.checkpoints@,
            reverse_execution_barrier_event: self.reverse_execution_barrier_event,
            breakpoints: self.breakpoints@,
            watchpoints: self.watchpoints@,
            known_steps: self.known_steps@,
        }
    }
}

impl TimelineView {
    /// The marks and the checkpoints are in the order of the replay, every
    /// checkpoint has a holder and a mark, no breakpoint or watchpoint is set
    /// twice, and every known step leads forward.
    pub open spec fn wf(self) -> bool {
        &&& ascending(self.marks)
        &&& ascending(pin_marks(self.checkpoints))
        &&& forall|i: int|
            0 <= i < self.checkpoints.len() ==> (#[trigger] self.checkpoints[i]).refcount >= 1
                && self.marks.contains(self.checkpoints[i].mark)
        &&& self.breakpoints.no_duplicates()
        &&& self.watchpoints.no_duplicates()
        &&& forall|i: int|
            0 <= i < self.known_steps.len() ==> mark_lt(
                (#[trigger] self.known_steps[i]).from,
                self.known_steps[i].to,
            )
    }

    /// A timeline over a session that stands at `current`.
    pub open spec fn starting(current: Mark, session: ReplaySessionState) -> TimelineView {
        TimelineView {
            current,
            session,
            marks: Seq::empty(),
            checkpoints: Seq::empty(),
            reverse_execution_barrier_event: 0,
            breakpoints: Seq::empty(),
            watchpoints: Seq::empty(),
            known_steps: Seq::empty(),
        }
    }

    /// Whether a checkpoint can be taken where the session stands: not in
    /// the middle of an event, and only of a session that can be cloned.
    pub open spec fn can_add_checkpoint(self) -> bool {
        self.session.can_clone && !self.current.in_execution_spec()
    }

    /// The timeline once the current state has a name.
    pub open spec fn marked(self) -> TimelineView {
        TimelineView { marks: with_mark(self.marks, self.current), ..self }
    }

    /// The timeline once a checkpoint was asked for at the current state:
    /// the state has a name, and a checkpoint if one can be taken.
    pub open spec fn checkpointed(self) -> TimelineView {
        if self.can_add_checkpoint() {
            TimelineView {
                checkpoints: pinned(self.checkpoints, self.current),
                ..self.marked()
            }
        } else {
            self.marked()
        }
    }

    /// The timeline once a holder of the checkpoint at `m` has let go.
    pub open spec fn released(self, m: Mark) -> TimelineView {
        TimelineView { checkpoints: unpinned(self.checkpoints, m), ..self }
    }

    /// The timeline once the session has been taken to `m`.
    pub open spec fn sought(self, m: Mark, session: ReplaySessionState) -> TimelineView {
        TimelineView { current: m, session, ..self }
    }

    /// How to take the session to `m`.
    pub open spec fn plan_to(self, m: Mark) -> SeekPlan {
        SeekPlan { restart_from: nearest_checkpoint(self.checkpoints, m), target: m }
    }

    /// Whether `step` is one to remember: it leads forward from one named
    /// state to another to which no step is known yet.
    pub open spec fn is_new_step(self, step: KnownStep) -> bool {
        mark_lt(step.from, step.to) && self.marks.contains(step.from) && self.marks.contains(
            step.to,
        ) && step_to(self.known_steps, step.to) is None
    }

    /// The timeline once it was told of `step`.
    pub open spec fn with_step(self, step: KnownStep) -> TimelineView {
        if self.is_new_step(step) {
            TimelineView { known_steps: self.known_steps.push(step), ..self }
        } else {
            self
        }
    }

    /// The step back from `from` that can be answered without running the
    /// session: the known step that leads to `from`, unless a breakpoint or a
    /// watchpoint is set, which might stop the replay on the way.
    pub open spec fn lazy_step_back(self, from: Mark) -> Option<KnownStep> {
        if self.breakpoints.len() == 0 && self.watchpoints.len() == 0 {
            step_to(self.known_steps, from)
        } else {
            None
        }
    }
}

/// `s` without `x`.
pub open spec fn without<T>(s: Seq<T>, x: T) -> Seq<T> {
    if s.contains(x) {
        s.remove(s.index_of(x))
    } else {
        s
    }
}

/// Taking out the one occurrence of `x` leaves a sequence that repeats
/// nothing.
pub proof fn lemma_without<T>(s: Seq<T>, x: T, i: int)
    requires
        s.no_duplicates(),
        0 <= i < s.len(),
        s[i] == x,
    ensures
        without(s, x) == s.remove(i),
        s.remove(i).no_duplicates(),
        !s.remove(i).contains(x),
{
    assert(s.contains(x));
    let r = s.remove(i);
    assert forall|a: int, b: int| 0 <= a < r.len() && 0 <= b < r.len() && a != b implies r[a]
        != r[b] by {
        let a0 = if a < i {
            a
        } else {
            a + 1
        };
        let b0 = if b < i {
            b
        } else {
            b + 1
        };
        assert(r[a] == s[a0] && r[b] == s[b0]);
    }
    if r.contains(x) {
        let k = choose|k: int| 0 <= k < r.len() && r[k] == x;
        let k0 = if k < i {
            k
        } else {
            k + 1
        };
        assert(r[k] == s[k0]);
    }
}

/// How many pins of an ascending run come before `m`.
fn pin_rank(pins: &Vec<CheckpointPin>, m: &Mark) -> (p: usize)
    requires
        ascending(pin_marks(pins@)),
    ensures
        p == rank(pin_marks(pins@), *m),
        p <= pins@.len(),
{
    let mut p: usize = 0;
    let ghost marks = pin_marks(pins@);
    proof {
        lemma_rank(marks, *m);
    }
    while p < pins.len() && pins[p].mark.before(m)
        invariant
            p <= pins@.len(),
            marks == pin_marks(pins@),
            ascending(marks),
            p <= rank(marks, *m) <= marks.len(),
            forall|i: int| 0 <= i < rank(marks, *m) ==> mark_lt(#[trigger] marks[i], *m),
            forall|i: int| rank(marks, *m) <= i < marks.len() ==> !mark_lt(#[trigger] marks[i], *m),
        decreases pins@.len() - p,
    {
        assert(marks[p as int] == pins@[p as int].mark);
        p = p + 1;
    }
    proof {
        if p < pins@.len() {
            assert(marks[p as int] == pins@[p as int].mark);
        }
    }
    p
}

/// How many marks of an ascending run come before `m`.
fn mark_rank(marks: &Vec<Mark>, m: &Mark) -> (p: usize)
    requires
        ascending(marks@),
    ensures
        p == rank(marks@, *m),
        p <= marks@.len(),
{
    let mut p: usize = 0;
    proof {
        lemma_rank(marks@, *m);
    }
    while p < marks.len() && marks[p].before(m)
        invariant
            p <= marks@.len(),
            ascending(marks@),
            p <= rank(marks@, *m) <= marks@.len(),
            forall|i: int| 0 <= i < rank(marks@, *m) ==> mark_lt(#[trigger] marks@[i], *m),
            forall|i: int|
                rank(marks@, *m) <= i < marks@.len() ==> !mark_lt(#[trigger] marks@[i], *m),
        decreases marks@.len() - p,
    {
        p = p + 1;
    }
    p
}

/// The step that is found to lead to `to` does lead there.
pub proof fn lemma_step_to(steps: Seq<KnownStep>, to: Mark)
    ensures
        step_to(steps, to) is Some ==> step_to(steps, to)->Some_0.to == to && steps.contains(
            step_to(steps, to)->Some_0,
        ),
    decreases steps.len(),
{
    if steps.len() > 0 {
        if steps[0].to == to {
            assert(steps[0] == step_to(steps, to)->Some_0);
        } else {
            lemma_step_to(steps.skip(1), to);
            if step_to(steps, to) is Some {
                let found = step_to(steps, to)->Some_0;
                let k = choose|k: int| 0 <= k < steps.skip(1).len() && steps.skip(1)[k] == found;
                assert(steps[k + 1] == found);
            }
        }
    }
}

/// Whether a mark is in an ascending run is seen at its rank.
pub proof fn lemma_member_at_rank(s: Seq<Mark>, m: Mark)
    requires
        ascending(s),
    ensures
        s.contains(m) <==> rank(s, m) < s.len() && s[rank(s, m)] == m,
{
    lemma_rank(s, m);
    if s.contains(m) {
        let k = choose|k: int| 0 <= k < s.len() && s[k] == m;
        lemma_rank_of_member(s, k);
    }
}

/// Whether each mark of `marks` comes before the next.
fn is_ascending(marks: &Vec<Mark>) -> (r: bool)
    ensures
        r == ascending(marks@),
{
    let mut i: usize = 1;
    while i < marks.len()
        invariant
            1 <= i,
            forall|a: int, b: int|
                0 <= a < b < i && b < marks@.len() ==> mark_lt(
                    #[trigger] marks@[a],
                    #[trigger] marks@[b],
                ),
        decreases marks@.len() - i,
    {
        if !marks[i - 1].before(&marks[i]) {
            assert(!mark_lt(marks@[i - 1], marks@[i as int]));
            return false;
        }
        assert forall|a: int, b: int| 0 <= a < b < i + 1 && b < marks@.len() implies mark_lt(
            #[trigger] marks@[a],
            #[trigger] marks@[b],
        ) by {
            if b == i && a < i - 1 {
                assert(mark_lt(marks@[a], marks@[i - 1]));
            }
        }
        i = i + 1;
    }
    true
}

/// Whether no breakpoint of `items` occurs twice.
fn breakpoints_differ(items: &Vec<Breakpoint>) -> (r: bool)
    ensures
        r == items@.no_duplicates(),
{
    let mut i: usize = 0;
    while i < items.len()
        invariant
            i <= items@.len(),
            forall|a: int, b: int| 0 <= a < b < i ==> items@[a] != items@[b],
        decreases items@.len() - i,
    {
        let mut j: usize = 0;
        while j < i
            invariant
                j <= i < items@.len(),
                forall|a: int| 0 <= a < j ==> items@[a] != items@[i as int],
            decreases i - j,
        {
            if items[j].addr == items[i].addr {
                assert(items@[j as int] == items@[i as int]);
                return false;
            }
            j = j + 1;
        }
        i = i + 1;
    }
    true
}

/// Whether no watchpoint of `items` occurs twice.
fn watchpoints_differ(items: &Vec<Watchpoint>) -> (r: bool)
    ensures
        r == items@.no_duplicates(),
{
    let mut i: usize = 0;
    while i < items.len()
        invariant
            i <= items@.len(),
            forall|a: int, b: int| 0 <= a < b < i ==> items@[a] != items@[b],
        decreases items@.len() - i,
    {
        let mut j: usize = 0;
        while j < i
            invariant
                j <= i < items@.len(),
                forall|a: int| 0 <= a < j ==> items@[a] != items@[i as int],
            decreases i - j,
        {
            if items[j].addr == items[i].addr && items[j].num_bytes == items[i].num_bytes
                && items[j].type_ == items[i].type_ {
                assert(items@[j as int] == items@[i as int]);
                return false;
            }
            j = j + 1;
        }
        i = i + 1;
    }
    true
}

impl ReplayTimeline {
    /// Whether the timeline is well formed.
    pub fn is_well_formed(&self) -> (r: bool)
        ensures
            r == self@.wf(),
    {
        if !is_ascending(&self.marks) {
            return false;
        }
        let mut pin_marks_now: Vec<Mark> = Vec::new();
        let mut k: usize = 0;
        while k < self.checkpoints.len()
            invariant
                k <= self.checkpoints@.len(),
                ascending(self.marks@),
                pin_marks_now@ == pin_marks(self.checkpoints@).take(k as int),
                forall|i: int|
                    0 <= i < k ==> (#[trigger] self.checkpoints@[i]).refcount >= 1
                        && self.marks@.contains(self.checkpoints@[i].mark),
            decreases self.checkpoints@.len() - k,
        {
            let pin = self.checkpoints[k];
            let p = mark_rank(&self.marks, &pin.mark);
            proof {
                lemma_member_at_rank(self.marks@, pin.mark);
            }
            if pin.refcount < 1 || !(p < self.marks.len() && self.marks[p] == pin.mark) {
                return false;
            }
            pin_marks_now.push(pin.mark);
            assert(pin_marks_now@ =~= pin_marks(self.checkpoints@).take(k + 1));
            k = k + 1;
        }
        assert(pin_marks_now@ =~= pin_marks(self.checkpoints@));
        let mut j: usize = 0;
        while j < self.known_steps.len()
            invariant
                j <= self.known_steps@.len(),
                forall|i: int|
                    0 <= i < j ==> mark_lt(
                        (#[trigger] self.known_steps@[i]).from,
                        self.known_steps@[i].to,
                    ),
            decreases self.known_steps@.len() - j,
        {
            if !self.known_steps[j].from.before(&self.known_steps[j].to) {
                return false;
            }
            j = j + 1;
        }
        is_ascending(&pin_marks_now) && breakpoints_differ(&self.breakpoints)
            && watchpoints_differ(&self.watchpoints)
    }

    /// A timeline over a session that stands at `current`.
    pub fn new(current: Mark, session: ReplaySessionState) -> (r: ReplayTimeline)
        ensures
            r@ == TimelineView::starting(current, session),
            r@.wf(),
    {
        let r = ReplayTimeline {
            current,
            session,
            marks: Vec::new(),
            checkpoints: Vec::new(),
            reverse_execution_barrier_event: 0,
            breakpoints: Vec::new(),
            watchpoints: Vec::new(),
            known_steps: Vec::new(),
        };
        assert(pin_marks(r@.checkpoints) =~= Seq::<Mark>::empty());
        r
    }

    /// Whether a checkpoint can be taken where the session stands.
    pub fn can_add_checkpoint(&self) -> (r: bool)
        ensures
            r == self@.can_add_checkpoint(),
    {
        self.session.can_clone && !self.current.in_execution()
    }

    /// Give the current state a name, and return it.
    pub fn mark(&mut self) -> (m: Mark)
        requires
            old(self)@.wf(),
        ensures
            m == old(self)@.current,
            final(self)@ == old(self)@.marked(),
            final(self)@.wf(),
            final(self)@.marks.contains(m),
    {
        let m = self.current;
        let p = mark_rank(&self.marks, &m);
        proof {
            lemma_with_mark(self.marks@, m);
        }
        if !(p < self.marks.len() && self.marks[p] == m) {
            self.marks.insert(p, m);
        }
        proof {
            assert forall|i: int| 0 <= i < self@.checkpoints.len() implies (
            #[trigger] self@.checkpoints[i]).refcount >= 1 && self@.marks.contains(
                self@.checkpoints[i].mark,
            ) by {
                assert(old(self)@.checkpoints[i].refcount >= 1);
                assert(old(self)@.marks.contains(old(self)@.checkpoints[i].mark));
            }
        }
        m
    }

    /// Give the current state a name and hold a checkpoint at it, if one
    /// can be taken here. Returns the state's name either way.
    pub fn add_explicit_checkpoint(&mut self) -> (m: Mark)
        requires
            old(self)@.wf(),
        ensures
            m == old(self)@.current,
            final(self)@ == old(self)@.checkpointed(),
            final(self)@.wf(),
    {
        let can = self.can_add_checkpoint();
        let m = self.mark();
        if can {
            let ghost before = self@;
            let ghost marks = pin_marks(self.checkpoints@);
            let p = pin_rank(&self.checkpoints, &m);
            proof {
                lemma_with_mark(marks, m);
                lemma_rank(marks, m);
            }
            if p < self.checkpoints.len() && self.checkpoints[p].mark == m {
                let pin = self.checkpoints[p];
                if pin.refcount < u32::MAX {
                    self.checkpoints.set(p, CheckpointPin { mark: m, refcount: pin.refcount + 1 });
                    assert(pin_marks(self.checkpoints@) =~= marks);
                }
            } else {
                self.checkpoints.insert(p, CheckpointPin { mark: m, refcount: 1 });
                assert(pin_marks(self.checkpoints@) =~= with_mark(marks, m));
            }
            proof {
                let pins = self@.checkpoints;
                assert forall|i: int| 0 <= i < pins.len() implies (#[trigger] pins[i]).refcount >= 1
                    && self@.marks.contains(pins[i].mark) by {
                    if pins.len() == before.checkpoints.len() {
                        assert(before.checkpoints[i].refcount >= 1);
                        assert(before.marks.contains(before.checkpoints[i].mark));
                    } else if i < p {
                        assert(pins[i] == before.checkpoints[i]);
                        assert(before.marks.contains(before.checkpoints[i].mark));
                    } else if i > p {
                        assert(pins[i] == before.checkpoints[i - 1]);
                        assert(before.marks.contains(before.checkpoints[i - 1].mark));
                    }
                }
            }
        }
        m
    }

    /// Let go of a checkpoint held at `m`. The checkpoint goes when its
    /// last holder does.
    pub fn remove_explicit_checkpoint(&mut self, m: &Mark)
        requires
            old(self)@.wf(),
        ensures
            final(self)@ == old(self)@.released(*m),
            final(self)@.wf(),
    {
        let ghost before = self@;
        let ghost marks = pin_marks(self.checkpoints@);
        let p = pin_rank(&self.checkpoints, m);
        if p < self.checkpoints.len() && self.checkpoints[p].mark == *m {
            let pin = self.checkpoints[p];
            if pin.refcount > 1 {
                self.checkpoints.set(p, CheckpointPin { mark: *m, refcount: pin.refcount - 1 });
                assert(pin_marks(self.checkpoints@) =~= marks);
                assert forall|i: int| 0 <= i < self@.checkpoints.len() implies (
                #[trigger] self@.checkpoints[i]).refcount >= 1 && self@.marks.contains(
                    self@.checkpoints[i].mark,
                ) by {
                    assert(before.checkpoints[i].refcount >= 1);
                    assert(before.marks.contains(before.checkpoints[i].mark));
                }
            } else {
                self.checkpoints.remove(p);
                let ghost after = pin_marks(self.checkpoints@);
                assert(after =~= marks.remove(p as int));
                assert forall|i: int, j: int| 0 <= i < j < after.len() implies mark_lt(
                    #[trigger] after[i],
                    #[trigger] after[j],
                ) by {
                    let i0 = if i < p {
                        i
                    } else {
                        i + 1
                    };
                    let j0 = if j < p {
                        j
                    } else {
                        j + 1
                    };
                    assert(after[i] == marks[i0] && after[j] == marks[j0]);
                }
                assert forall|i: int| 0 <= i < self@.checkpoints.len() implies (
                #[trigger] self@.checkpoints[i]).refcount >= 1 && self@.marks.contains(
                    self@.checkpoints[i].mark,
                ) by {
                    let i0 = if i < p {
                        i
                    } else {
                        i + 1
                    };
                    assert(self@.checkpoints[i] == before.checkpoints[i0]);
                    assert(before.marks.contains(before.checkpoints[i0].mark));
                }
            }
        }
    }

    /// How to take the session to `m`: from which checkpoint to restart it.
    pub fn plan_seek(&self, m: &Mark) -> (plan: SeekPlan)
        requires
            self@.wf(),
        ensures
            plan == self@.plan_to(*m),
    {
        let p = pin_rank(&self.checkpoints, m);
        let restart_from = if p < self.checkpoints.len() && self.checkpoints[p].mark == *m {
            Some(*m)
        } else if p > 0 {
            Some(self.checkpoints[p - 1].mark)
        } else {
            None
        };
        SeekPlan { restart_from, target: *m }
    }

    /// Note that the session has been taken to `m`, and is now as `session`
    /// says. Seeking twice to the same state is the same as seeking once.
    pub fn seek_to_mark(&mut self, m: &Mark, session: ReplaySessionState)
        ensures
            final(self)@ == old(self)@.sought(*m, session),
            old(self)@.wf() ==> final(self)@.wf(),
    {
        self.current = *m;
        self.session = session;
    }

    /// How to take the session to just before `event`: where to restart
    /// it, which is the last checkpoint at or before the states at which
    /// `event` is about to be replayed. The session is then run forward until
    /// `event` is the next to be replayed. Refused if `event` lies below the
    /// barrier.
    pub fn seek_to_before_event(&self, event: u64) -> (r: Result<SeekPlan, TimelineError>)
        requires
            self@.wf(),
        ensures
            r == if event < self@.reverse_execution_barrier_event {
                Err::<SeekPlan, TimelineError>(TimelineError::BelowBarrier)
            } else {
                Ok(self@.plan_to(Mark::before_event_spec(event)))
            },
    {
        if event < self.reverse_execution_barrier_event {
            return Err(TimelineError::BelowBarrier);
        }
        Ok(self.plan_seek(&Mark::before_event(event)))
    }

    /// Never let reverse execution go below `event`.
    pub fn set_reverse_execution_barrier_event(&mut self, event: u64)
        ensures
            final(self)@ == (TimelineView {
                reverse_execution_barrier_event: event,
                ..old(self)@
            }),
    {
        self.reverse_execution_barrier_event = event;
    }

    /// Note a step forward of the session: it now stands at `position` and
    /// is as `session` says.
    pub fn replay_step_forward(&mut self, position: Mark, session: ReplaySessionState)
        requires
            mark_le(old(self)@.current, position),
        ensures
            final(self)@ == old(self)@.sought(position, session),
            mark_le(old(self)@.current, final(self)@.current),
            old(self)@.wf() ==> final(self)@.wf(),
    {
        self.current = position;
        self.session = session;
    }

    /// The known step that leads to `to`, if there is one.
    fn find_step_to(&self, to: &Mark) -> (r: Option<KnownStep>)
        ensures
            r == step_to(self@.known_steps, *to),
    {
        let mut i: usize = 0;
        assert(self.known_steps@.skip(0) =~= self.known_steps@);
        while i < self.known_steps.len()
            invariant
                i <= self.known_steps@.len(),
                step_to(self.known_steps@, *to) == step_to(self.known_steps@.skip(i as int), *to),
            decreases self.known_steps@.len() - i,
        {
            assert(self.known_steps@.skip(i as int)[0] == self.known_steps@[i as int]);
            assert(self.known_steps@.skip(i as int).skip(1) =~= self.known_steps@.skip(i + 1));
            if self.known_steps[i].to == *to {
                return Some(self.known_steps[i]);
            }
            i = i + 1;
        }
        None
    }

    /// Whether `m` has a name.
    fn is_marked(&self, m: &Mark) -> (r: bool)
        requires
            self@.wf(),
        ensures
            r == self@.marks.contains(*m),
    {
        let p = mark_rank(&self.marks, m);
        proof {
            lemma_member_at_rank(self.marks@, *m);
        }
        p < self.marks.len() && self.marks[p] == *m
    }

    /// Note that a single step from the named state `from`, at which the
    /// task had the registers `regs`, led to the named state `to` without a
    /// signal. A step that does not lead forward, or between states without a
    /// name, or to a state to which a step is known already, is not noted.
    pub fn note_singlestep(&mut self, from: Mark, regs: Registers, to: Mark)
        requires
            old(self)@.wf(),
        ensures
            final(self)@ == old(self)@.with_step(KnownStep { from, to, regs }),
            final(self)@.wf(),
    {
        if from.before(&to) && self.is_marked(&from) && self.is_marked(&to) {
            let known = self.find_step_to(&to);
            if known.is_none() {
                self.known_steps.push(KnownStep { from, to, regs });
            }
        }
    }

    /// Answer a single step back from `from` without running the session,
    /// if that can be done: with the state before, and the registers that the
    /// task had there.
    pub fn lazy_reverse_singlestep(&self, from: &Mark) -> (r: Option<KnownStep>)
        ensures
            r == self@.lazy_step_back(*from),
            r is Some ==> r->Some_0.to == *from,
            self@.wf() && r is Some ==> mark_lt(r->Some_0.from, *from),
    {
        if self.breakpoints.len() != 0 || self.watchpoints.len() != 0 {
            return None;
        }
        proof {
            lemma_step_to(self.known_steps@, *from);
        }
        self.find_step_to(from)
    }

    /// Whether a run forward that is not to go beyond `stop_at_event` is
    /// over after the step that gave `result` and left the session as the
    /// timeline has it: the trace has ended, the replay stopped for a reason
    /// or completed a single step, or the frame to be replayed next is at
    /// `stop_at_event` or beyond.
    pub fn forward_run_is_over(&self, result: &ReplayResult, stop_at_event: u64) -> (r: bool)
        ensures
            r == (result.status == ReplayStatus::ReplayExited
                || result.break_status.is_stop_site_spec()
                || result.break_status.singlestep_complete || self@.session.frame_time
                >= stop_at_event),
    {
        let exited = match result.status {
            ReplayStatus::ReplayExited => true,
            ReplayStatus::ReplayContinue => false,
        };
        exited || result.break_status.is_stop_site() || result.break_status.singlestep_complete
            || self.session.frame_time >= stop_at_event
    }

    /// Stop the replay at `addr`. Returns false if it stops there already.
    pub fn set_breakpoint(&mut self, addr: u64) -> (added: bool)
        requires
            old(self)@.wf(),
        ensures
            added == !old(self)@.breakpoints.contains(Breakpoint { addr }),
            final(self)@ == (TimelineView {
                breakpoints: if added {
                    old(self)@.breakpoints.push(Breakpoint { addr })
                } else {
                    old(self)@.breakpoints
                },
                ..old(self)@
            }),
            final(self)@.wf(),
    {
        let b = Breakpoint { addr };
        let mut i: usize = 0;
        while i < self.breakpoints.len()
            invariant
                i <= self.breakpoints@.len(),
                *self == *old(self),
                old(self)@.wf(),
                b == (Breakpoint { addr }),
                forall|j: int| 0 <= j < i ==> #[trigger] self.breakpoints@[j] != b,
            decreases self.breakpoints@.len() - i,
        {
            if self.breakpoints[i].addr == addr {
                assert(self.breakpoints@[i as int] == b);
                return false;
            }
            i = i + 1;
        }
        self.breakpoints.push(b);
        true
    }

    /// No longer stop the replay at `addr`.
    pub fn clear_breakpoint(&mut self, addr: u64)
        requires
            old(self)@.wf(),
        ensures
            final(self)@ == (TimelineView {
                breakpoints: without(old(self)@.breakpoints, Breakpoint { addr }),
                ..old(self)@
            }),
            final(self)@.wf(),
    {
        let b = Breakpoint { addr };
        let mut i: usize = 0;
        while i < self.breakpoints.len()
            invariant
                i <= self.breakpoints@.len(),
                *self == *old(self),
                old(self)@.wf(),
                b == (Breakpoint { addr }),
                forall|j: int| 0 <= j < i ==> #[trigger] self.breakpoints@[j] != b,
            decreases self.breakpoints@.len() - i,
        {
            if self.breakpoints[i].addr == addr {
                proof {
                    lemma_without(self.breakpoints@, b, i as int);
                }
                self.breakpoints.remove(i);
                return ;
            }
            i = i + 1;
        }
    }

    /// Stop the replay when `num_bytes` at `addr` are accessed as `type_`
    /// says. Returns false if it stops on that already.
    pub fn set_watchpoint(&mut self, addr: u64, num_bytes: usize, type_: WatchType) -> (added: bool)
        requires
            old(self)@.wf(),
        ensures
            added == !old(self)@.watchpoints.contains(Watchpoint { addr, num_bytes, type_ }),
            final(self)@ == (TimelineView {
                watchpoints: if added {
                    old(self)@.watchpoints.push(Watchpoint { addr, num_bytes, type_ })
                } else {
                    old(self)@.watchpoints
                },
                ..old(self)@
            }),
            final(self)@.wf(),
    {
        let w = Watchpoint { addr, num_bytes, type_ };
        let mut i: usize = 0;
        while i < self.watchpoints.len()
            invariant
                i <= self.watchpoints@.len(),
                *self == *old(self),
                old(self)@.wf(),
                w == (Watchpoint { addr, num_bytes, type_ }),
                forall|j: int| 0 <= j < i ==> #[trigger] self.watchpoints@[j] != w,
            decreases self.watchpoints@.len() - i,
        {
            if self.watchpoints[i] == w {
                return false;
            }
            i = i + 1;
        }
        self.watchpoints.push(w);
        true
    }

    /// No longer stop the replay on that access.
    pub fn clear_watchpoint(&mut self, addr: u64, num_bytes: usize, type_: WatchType)
        requires
            old(self)@.wf(),
        ensures
            final(self)@ == (TimelineView {
                watchpoints: without(
                    old(self)@.watchpoints,
                    Watchpoint { addr, num_bytes, type_ },
                ),
                ..old(self)@
            }),
            final(self)@.wf(),
    {
        let w = Watchpoint { addr, num_bytes, type_ };
        let mut i: usize = 0;
        while i < self.watchpoints.len()
            invariant
                i <= self.watchpoints@.len(),
                *self == *old(self),
                old(self)@.wf(),
                w == (Watchpoint { addr, num_bytes, type_ }),
                forall|j: int| 0 <= j < i ==> #[trigger] self.watchpoints@[j] != w,
            decreases self.watchpoints@.len() - i,
        {
            if self.watchpoints[i] == w {
                proof {
                    lemma_without(self.watchpoints@, w, i as int);
                }
                self.watchpoints.remove(i);
                return ;
            }
            i = i + 1;
        }
    }

    /// Forget every breakpoint and watchpoint.
    pub fn remove_breakpoints_and_watchpoints(&mut self)
        ensures
            final(self)@ == (TimelineView {
                breakpoints: Seq::empty(),
                watchpoints: Seq::empty(),
                ..old(self)@
            }),
            old(self)@.wf() ==> final(self)@.wf(),
    {
        self.breakpoints = Vec::new();
        self.watchpoints = Vec::new();
    }
}

/// The search for where a reverse step ends. The session is restarted from
/// a checkpoint before the state it stood at and run forward; every state
/// that it reaches is shown to the search, and the last one seen before the
/// starting state at which the step can end is where it ends: the last at
/// which the replay stopped for a reason or, when going back by one
/// instruction, the last at all.
pub struct ReverseStep {
    /// The state from which the step goes back.
    pub from: Mark,
    /// How far the step goes back.
    pub command: RunCommand,
    /// The event below which the step does not go.
    pub barrier_event: u64,
    /// The last state before `from`, and not below the barrier, at which the
    /// step can end, and the status with which the replay stopped there.
    pub best: Option<(Mark, BreakStatus)>,
}

/// The state that the search has found so far.
pub open spec fn best_mark(best: Option<(Mark, BreakStatus)>) -> Option<Mark> {
    match best {
        Some(found) => Some(found.0),
        None => None,
    }
}

/// What the search has to be shown next.
#[derive(Clone, Copy, Debug, PartialEq, Eq, Structural)]
pub enum ReverseProgress {
    /// The forward run has not reached the starting state: run on.
    KeepRunning,
    /// The forward run has reached the starting state. The reverse step ends
    /// at the given state, or at the start of what can be replayed if the
    /// replay could stop nowhere before.
    Done { target: Option<Mark> },
}

/// The search after it was shown `at`, which the replay reached with
/// `status`.
pub open spec fn observed(rs: ReverseStep, at: Mark, status: BreakStatus) -> ReverseStep {
    if mark_lt(at, rs.from) && status.ends_reverse_spec(rs.command) && at.event
        >= rs.barrier_event {
        ReverseStep { best: Some((at, status)), ..rs }
    } else {
        rs
    }
}

/// The search after it was shown all of `seen`, in order.
pub open spec fn observed_all(rs: ReverseStep, seen: Seq<(Mark, BreakStatus)>) -> ReverseStep
    decreases seen.len(),
{
    if seen.len() == 0 {
        rs
    } else {
        let last = seen.last();
        observed(observed_all(rs, seen.drop_last()), last.0, last.1)
    }
}

impl ReverseStep {
    /// The first checkpoint to restart from lies before the state from which
    /// the step goes back, since the step has to end before it.
    pub open spec fn restart_spec(v: TimelineView) -> Option<Mark> {
        let p = rank(pin_marks(v.checkpoints), v.current);
        if p > 0 {
            Some(v.checkpoints[p - 1].mark)
        } else {
            None
        }
    }

    /// The event below which a reverse step does not go: the later of the
    /// timeline's barrier and the event that the caller names.
    pub open spec fn barrier_spec(v: TimelineView, stop_before_event: u64) -> u64 {
        if stop_before_event > v.reverse_execution_barrier_event {
            stop_before_event
        } else {
            v.reverse_execution_barrier_event
        }
    }

    /// Start a reverse step by `command` from where `timeline` stands, which
    /// is not to end before `stop_before_event`. Returns the search and the
    /// checkpoint to restart the session from: the last one before the
    /// current state, or `None` to restart from the start of the trace.
    pub fn begin(timeline: &ReplayTimeline, command: RunCommand, stop_before_event: u64) -> (r: (
        ReverseStep,
        Option<Mark>,
    ))
        requires
            timeline@.wf(),
        ensures
            r.0 == (ReverseStep {
                from: timeline@.current,
                command,
                barrier_event: Self::barrier_spec(timeline@, stop_before_event),
                best: None,
            }),
            r.1 == Self::restart_spec(timeline@),
            r.1 is Some ==> mark_lt(r.1->Some_0, timeline@.current),
    {
        let p = pin_rank(&timeline.checkpoints, &timeline.current);
        proof {
            lemma_rank(pin_marks(timeline.checkpoints@), timeline.current);
            if p > 0 {
                assert(pin_marks(timeline.checkpoints@)[p - 1] == timeline.checkpoints@[p
                    - 1].mark);
            }
        }
        let restart = if p > 0 {
            Some(timeline.checkpoints[p - 1].mark)
        } else {
            None
        };
        let barrier_event = if stop_before_event > timeline.reverse_execution_barrier_event {
            stop_before_event
        } else {
            timeline.reverse_execution_barrier_event
        };
        (ReverseStep { from: timeline.current, command, barrier_event, best: None }, restart)
    }

    /// Show the search the state `at` that the forward run has reached, and
    /// the `status` with which it got there.
    pub fn observe(&mut self, at: &Mark, status: BreakStatus) -> (r: ReverseProgress)
        ensures
            *final(self) == observed(*old(self), *at, status),
            r == if mark_lt(*at, old(self).from) {
                ReverseProgress::KeepRunning
            } else {
                ReverseProgress::Done { target: best_mark(old(self).best) }
            },
    {
        if at.before(&self.from) {
            if status.ends_reverse(self.command) && at.event >= self.barrier_event {
                self.best = Some((*at, status));
            }
            ReverseProgress::KeepRunning
        } else {
            let target = match &self.best {
                Some(found) => Some(found.0),
                None => None,
            };
            ReverseProgress::Done { target }
        }
    }

    /// What the reverse step reports once the session has been taken to
    /// where the step ends, with `task` as its current task: the reason for
    /// which the replay stopped there or, if the step went back to the start
    /// of what can be replayed, the exit of `task`.
    pub fn finish(self, task: Option<TaskInfo>) -> (r: BreakStatus)
        ensures
            match self.best {
                Some(found) => r == found.1,
                None => r.is_start_of_replay(task),
            },
    {
        match self.best {
            Some(found) => found.1,
            None => BreakStatus::start_of_replay(task),
        }
    }
}

/// A reverse step ends at the last state before its start at which it can
/// end, and never below the barrier: of the states that a forward run shows
/// in the order of the replay, the search keeps one at which the step can
/// end, before the start and not below the barrier, with the status of the
/// stop there, and no such state comes after it.
pub proof fn law_reverse_step_ends_at_last_stop(
    from: Mark,
    command: RunCommand,
    barrier_event: u64,
    seen: Seq<(Mark, BreakStatus)>,
)
    requires
        forall|i: int, j: int|
            0 <= i < j < seen.len() ==> mark_lt((#[trigger] seen[i]).0, (#[trigger] seen[j]).0),
    ensures
        ({
            let start = ReverseStep { from, command, barrier_event, best: None };
            let end = observed_all(start, seen);
            let best = end.best;
            &&& end.from == from && end.command == command && end.barrier_event == barrier_event
            &&& best is Some ==> mark_lt(best->Some_0.0, from) && best->Some_0.0.event
                >= barrier_event && best->Some_0.1.ends_reverse_spec(command) && seen.contains(
                best->Some_0,
            )
            &&& forall|i: int|
                0 <= i < seen.len() && (#[trigger] seen[i]).1.ends_reverse_spec(command) && mark_lt(
                    seen[i].0,
                    from,
                ) && seen[i].0.event >= barrier_event ==> best is Some && mark_le(
                    seen[i].0,
                    best->Some_0.0,
                )
        }),
    decreases seen.len(),
{
    let start = ReverseStep { from, command, barrier_event, best: None };
    if seen.len() > 0 {
        let head = seen.drop_last();
        let last = seen.last();
        assert forall|i: int, j: int| 0 <= i < j < head.len() implies mark_lt(
            (#[trigger] head[i]).0,
            (#[trigger] head[j]).0,
        ) by {
            assert(head[i] == seen[i] && head[j] == seen[j]);
        }
        law_reverse_step_ends_at_last_stop(from, command, barrier_event, head);
        let before = observed_all(start, head).best;
        let best = observed_all(start, seen).best;
        let taken = mark_lt(last.0, from) && last.1.ends_reverse_spec(command) && last.0.event
            >= barrier_event;
        assert(observed_all(start, seen) == observed(observed_all(start, head), last.0, last.1));
        if best is Some {
            if taken {
                assert(best == Some(last));
                assert(seen[seen.len() - 1] == best->Some_0);
            } else {
                assert(best == before);
                assert(head.contains(before->Some_0));
                let k = choose|k: int| 0 <= k < head.len() && head[k] == before->Some_0;
                assert(seen[k] == head[k]);
            }
        }
        assert forall|i: int|
            0 <= i < seen.len() && (#[trigger] seen[i]).1.ends_reverse_spec(command) && mark_lt(
                seen[i].0,
                from,
            ) && seen[i].0.event >= barrier_event implies best is Some && mark_le(
            seen[i].0,
            best->Some_0.0,
        ) by {
            if i < head.len() {
                assert(head[i] == seen[i]);
                if taken {
                    assert(mark_lt(seen[i].0, seen[seen.len() - 1].0));
                }
            }
        }
    }
}

/// The marks of a timeline stand in the order of the replay: one stands
/// before another in the timeline exactly if its state comes before the
/// other's in the replay. Naming the current state keeps the marks in that
/// order, and a forward step never takes the session to an earlier state.
pub proof fn law_marks_follow_replay(
    v: TimelineView,
    i: int,
    j: int,
    position: Mark,
    session: ReplaySessionState,
)
    requires
        v.wf(),
        0 <= i < v.marks.len(),
        0 <= j < v.marks.len(),
        mark_le(v.current, position),
    ensures
        i < j <==> mark_lt(v.marks[i], v.marks[j]),
        i == j <==> v.marks[i] == v.marks[j],
        v.marked().wf(),
        v.marked().marks.contains(v.marks[i]),
        !mark_lt(v.sought(position, session).current, v.current),
{
    lemma_with_mark(v.marks, v.current);
    if i < j {
        assert(mark_lt(v.marks[i], v.marks[j]));
    } else if j < i {
        assert(mark_lt(v.marks[j], v.marks[i]));
    }
    assert(v.marks.contains(v.marks[i]));
    assert forall|k: int| 0 <= k < v.marked().checkpoints.len() implies (
    #[trigger] v.marked().checkpoints[k]).refcount >= 1 && v.marked().marks.contains(
        v.marked().checkpoints[k].mark,
    ) by {
        assert(v.checkpoints[k].refcount >= 1);
        assert(v.marks.contains(v.checkpoints[k].mark));
    }
}

/// Something that is done to a timeline.
pub enum TimelineStep {
    /// The session is run forward, to `position`.
    Forward { position: Mark, session: ReplaySessionState },
    /// The session is taken to `to`, which may lie before the current state.
    Seek { to: Mark, session: ReplaySessionState },
    /// The current state is given a name.
    Name,
    /// A checkpoint is asked for at the current state.
    Hold,
    /// A holder of the checkpoint at `at` lets go.
    Release { at: Mark },
    /// The timeline is told of a single step.
    Learn { step: KnownStep },
}

/// The timeline after `step`.
pub open spec fn stepped(v: TimelineView, step: TimelineStep) -> TimelineView {
    match step {
        TimelineStep::Forward { position, session } => v.sought(position, session),
        TimelineStep::Seek { to, session } => v.sought(to, session),
        TimelineStep::Name => v.marked(),
        TimelineStep::Hold => v.checkpointed(),
        TimelineStep::Release { at } => v.released(at),
        TimelineStep::Learn { step } => v.with_step(step),
    }
}

/// The timeline after all of `steps`, in order.
pub open spec fn stepped_all(v: TimelineView, steps: Seq<TimelineStep>) -> TimelineView
    decreases steps.len(),
{
    if steps.len() == 0 {
        v
    } else {
        stepped(stepped_all(v, steps.drop_last()), steps.last())
    }
}

/// Asking for a checkpoint keeps a timeline well formed.
pub proof fn lemma_checkpointed_wf(v: TimelineView)
    requires
        v.wf(),
    ensures
        v.marked().wf(),
        v.checkpointed().wf(),
{
    let m = v.current;
    let pins = v.checkpoints;
    let marks = pin_marks(pins);
    let p = rank(marks, m);
    lemma_with_mark(v.marks, m);
    lemma_rank(marks, m);
    lemma_with_mark(marks, m);
    assert forall|k: int| 0 <= k < pins.len() implies (#[trigger] pins[k]).refcount >= 1
        && v.marked().marks.contains(pins[k].mark) by {
        assert(v.marks.contains(pins[k].mark));
    }
    if v.can_add_checkpoint() {
        let added = pinned(pins, m);
        if p < pins.len() && pins[p].mark == m {
            assert(pin_marks(added) =~= marks);
        } else {
            assert(pin_marks(added) =~= with_mark(marks, m));
        }
        assert forall|k: int| 0 <= k < added.len() implies (#[trigger] added[k]).refcount >= 1
            && v.marked().marks.contains(added[k].mark) by {
            if added.len() == pins.len() {
                assert(pins[k].refcount >= 1);
                assert(added[k].mark == pins[k].mark);
            } else if k < p {
                assert(added[k] == pins[k]);
            } else if k > p {
                assert(added[k] == pins[k - 1]);
            }
        }
    }
}

/// Letting go of a checkpoint keeps a timeline well formed.
pub proof fn lemma_released_wf(v: TimelineView, m: Mark)
    requires
        v.wf(),
    ensures
        v.released(m).wf(),
{
    let pins = v.checkpoints;
    let marks = pin_marks(pins);
    let p = rank(marks, m);
    lemma_rank(marks, m);
    let left = unpinned(pins, m);
    if p < pins.len() && pins[p].mark == m {
        if pins[p].refcount > 1 {
            assert(pin_marks(left) =~= marks);
            assert forall|k: int| 0 <= k < left.len() implies (#[trigger] left[k]).refcount >= 1
                && v.marks.contains(left[k].mark) by {
                assert(pins[k].refcount >= 1);
                assert(left[k].mark == pins[k].mark);
            }
        } else {
            let after = pin_marks(left);
            assert(after =~= marks.remove(p));
            assert forall|i: int, j: int| 0 <= i < j < after.len() implies mark_lt(
                #[trigger] after[i],
                #[trigger] after[j],
            ) by {
                let i0 = if i < p {
                    i
                } else {
                    i + 1
                };
                let j0 = if j < p {
                    j
                } else {
                    j + 1
                };
                assert(after[i] == marks[i0] && after[j] == marks[j0]);
            }
            assert forall|k: int| 0 <= k < left.len() implies (#[trigger] left[k]).refcount >= 1
                && v.marks.contains(left[k].mark) by {
                let k0 = if k < p {
                    k
                } else {
                    k + 1
                };
                assert(left[k] == pins[k0]);
            }
        }
    }
}

/// Whatever is done to a timeline, in whatever order, its marks stand in
/// the order of the replay: after any steps forward, seeks back and forth,
/// namings of states, takings and droppings of checkpoints and notes of
/// single steps, a mark stands before another in the timeline exactly if its
/// state comes before the other's in the replay.
pub proof fn law_marks_stay_in_order(
    current: Mark,
    session: ReplaySessionState,
    steps: Seq<TimelineStep>,
    i: int,
    j: int,
)
    requires
        0 <= i < stepped_all(TimelineView::starting(current, session), steps).marks.len(),
        0 <= j < stepped_all(TimelineView::starting(current, session), steps).marks.len(),
    ensures
        ({
            let v = stepped_all(TimelineView::starting(current, session), steps);
            &&& v.wf()
            &&& i < j <==> mark_lt(v.marks[i], v.marks[j])
            &&& i == j <==> v.marks[i] == v.marks[j]
        }),
{
    lemma_steps_keep_wf(current, session, steps);
    let v = stepped_all(TimelineView::starting(current, session), steps);
    if i < j {
        assert(mark_lt(v.marks[i], v.marks[j]));
    } else if j < i {
        assert(mark_lt(v.marks[j], v.marks[i]));
    }
}

/// Whatever is done to a timeline, it stays well formed.
pub proof fn lemma_steps_keep_wf(current: Mark, session: ReplaySessionState, steps: Seq<TimelineStep>)
    ensures
        stepped_all(TimelineView::starting(current, session), steps).wf(),
    decreases steps.len(),
{
    let start = TimelineView::starting(current, session);
    if steps.len() == 0 {
        assert(pin_marks(start.checkpoints) =~= Seq::<Mark>::empty());
    } else {
        lemma_steps_keep_wf(current, session, steps.drop_last());
        let v = stepped_all(start, steps.drop_last());
        match steps.last() {
            TimelineStep::Forward { position, session } => {},
            TimelineStep::Seek { to, session } => {},
            TimelineStep::Name => {
                lemma_checkpointed_wf(v);
            },
            TimelineStep::Hold => {
                lemma_checkpointed_wf(v);
            },
            TimelineStep::Release { at } => {
                lemma_released_wf(v, at);
            },
            TimelineStep::Learn { step } => {},
        }
    }
}

/// Seeking to a mark of the timeline and then naming the current state
/// gives that mark again, and adds no mark. Seeking there twice is the same
/// as seeking once.
pub proof fn law_seek_then_mark(v: TimelineView, m: Mark, session: ReplaySessionState)
    requires
        v.wf(),
        v.marks.contains(m),
    ensures
        v.sought(m, session).current == m,
        v.sought(m, session).marked() == v.sought(m, session),
        v.sought(m, session).sought(m, session) == v.sought(m, session),
{
    let k = choose|k: int| 0 <= k < v.marks.len() && v.marks[k] == m;
    lemma_rank_of_member(v.marks, k);
}

/// Asking for a checkpoint at the current state and letting go of it
/// again leaves the checkpoints as they were; the state keeps the name that
/// it was given.
///
/// This is stated of every timeline but one that holds a checkpoint at the
/// current state already and either can take none there now, or cannot count
/// one holder more of it.
pub proof fn law_checkpoint_add_then_remove(v: TimelineView)
    requires
        v.wf(),
        forall|i: int|
            0 <= i < v.checkpoints.len() && (#[trigger] v.checkpoints[i]).mark == v.current
                ==> v.can_add_checkpoint() && v.checkpoints[i].refcount < u32::MAX,
    ensures
        v.checkpointed().released(v.current).checkpoints == v.checkpoints,
        v.checkpointed().released(v.current).marks == with_mark(v.marks, v.current),
{
    let m = v.current;
    let pins = v.checkpoints;
    let marks = pin_marks(pins);
    let p = rank(marks, m);
    lemma_rank(marks, m);
    lemma_with_mark(marks, m);
    if v.can_add_checkpoint() {
        let added = pinned(pins, m);
        if p < pins.len() && pins[p].mark == m {
            assert(pin_marks(added) =~= marks);
            assert(unpinned(added, m) =~= pins);
        } else {
            assert(pin_marks(added) =~= with_mark(marks, m));
            assert(added[p].mark == m);
            assert(unpinned(added, m) =~= pins);
        }
    }
}

} // verus!
