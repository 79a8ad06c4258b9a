//! What the recorder knows of one traced task while it handles a syscall.

use crate::kernel_abi::SupportedArch;
use crate::registers::Registers;
use crate::tracee_memory::{mem_mapped, mem_read, MemImage, TraceeMemory};
use vstd::prelude::*;

verus! {

/// Identity of a task, unique over a session.
#[derive(Clone, Copy, Debug, PartialEq, Eq, Structural)]
pub struct TaskUid {
    pub tid: i32,
    pub serial: u32,
}

/// Identity of a thread group, unique over a session.
#[derive(Clone, Copy, Debug, PartialEq, Eq, Structural)]
pub struct ThreadGroupUid {
    pub tid: i32,
    pub serial: u32,
}

/// Whether the scheduler may run another task while this one is in its
/// syscall.
#[derive(Clone, Copy, Debug, PartialEq, Eq, Structural)]
pub enum Switchable {
    PreventSwitch,
    AllowSwitch,
}

/// The syscall a task is entering or leaving.
#[derive(Clone, Copy, Debug, PartialEq, Eq, Structural)]
pub struct SyscallEvent {
    pub number: i32,
    pub arch: SupportedArch,
}

/// One region of tracee memory written to the trace.
pub struct RecordedData {
    pub addr: u64,
    pub data: Vec<u8>,
}

/// What a trace record says.
pub struct RecordedView {
    pub addr: u64,
    pub data: Seq<u8>,
}

impl View for RecordedData {
    type V = RecordedView;

    open spec fn view(&self) -> RecordedView {
        RecordedView { addr: self.addr, data: self.data@ }
    }
}

/// A task being recorded.
pub struct RecordTask {
    pub tuid: TaskUid,
    pub regs: Registers,
    pub mem: TraceeMemory,
    /// Start of the task's scratch buffer, or 0 if it has none.
    pub scratch_ptr: u64,
    /// How much of the scratch buffer syscall buffers may take.
    pub usable_scratch_size: usize,
    /// Address of the syscallbuf record of the buffered syscall the task was
    /// descheduled in, or 0.
    pub desched_rec: u64,
    pub prctl_seccomp_status: i32,
    pub tsc_mode: i32,
    /// Whether the task's thread group is dumpable.
    pub dumpable: bool,
    /// Whether the session has seen its first exec.
    pub done_initial_exec: bool,
    pub syscall_event: SyscallEvent,
    /// The memory regions recorded so far, oldest first.
    pub trace: Vec<RecordedData>,
}

/// What a `RecordTask` says.
pub struct RecordTaskView {
    pub tuid: TaskUid,
    pub regs: Registers,
    pub mem: MemImage,
    pub scratch_ptr: u64,
    pub usable_scratch_size: usize,
    pub desched_rec: u64,
    pub prctl_seccomp_status: i32,
    pub tsc_mode: i32,
    pub dumpable: bool,
    pub done_initial_exec: bool,
    pub syscall_event: SyscallEvent,
    pub trace: Seq<RecordedView>,
}

impl View for RecordTask {
    type V = RecordTaskView;

    open spec fn view(&self) -> RecordTaskView {
        RecordTaskView {
            tuid: self.tuid,
            regs: self.regs,
            mem: self.mem@,
            scratch_ptr: self.scratch_ptr,
            usable_scratch_size: self.usable_scratch_size,
            desched_rec: self.desched_rec,
            prctl_seccomp_status: self.prctl_seccomp_status,
            tsc_mode: self.tsc_mode,
            dumpable: self.dumpable,
            done_initial_exec: self.done_initial_exec,
            syscall_event: self.syscall_event,
            trace: trace_views(self.trace@),
        }
    }
}

/// The views of a run of trace records.
pub open spec fn trace_views(trace: Seq<RecordedData>) -> Seq<RecordedView> {
    Seq::new(trace.len(), |i: int| trace[i]@)
}

impl RecordTask {
    pub fn arch(&self) -> (r: SupportedArch)
        ensures
            r == self.regs.arch,
    {
        self.regs.arch
    }

    /// Record `data` as the contents of tracee memory at `addr`.
    pub fn record_local(&mut self, addr: u64, data: Vec<u8>)
        ensures
            final(self)@ == (RecordTaskView {
                trace: old(self)@.trace.push(
    RecordedView { addr, data: data@ },
                ),
                ..old(self)@
            }),
    {
        self.trace.push(RecordedData { addr, data });
        assert(trace_views(self.trace@) =~= trace_views(old(self).trace@).push(
            RecordedView { addr, data: data@ },
        ));
    }

    /// Record the `len` bytes that tracee memory holds at `addr`.
    pub fn record_remote(&mut self, addr: u64, len: usize)
        requires
            mem_mapped(old(self).mem@, addr as int, len as int),
        ensures
            final(self)@ == (RecordTaskView {
                trace: old(self)@.trace.push(
    RecordedView { addr, data: mem_read(old(self).mem@, addr as int, len as nat) },
                ),
                ..old(self)@
            }),
    {
        let data = self.mem.read_bytes(addr, len);
        self.record_local(addr, data.unwrap());
    }
}

} // verus!
