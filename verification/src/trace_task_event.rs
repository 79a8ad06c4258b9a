//! The events of a trace that tell of tasks coming and going.

use vstd::prelude::*;

verus! {

/// How a task ended, as `wait` reports it.
#[derive(Clone, Copy, Debug, PartialEq, Eq, Structural)]
pub struct WaitStatus {
    pub status: i32,
}

/// A task was created by `clone`, `fork` or `vfork`.
#[derive(Clone, Copy, Debug, PartialEq, Eq, Structural)]
pub struct TraceTaskEventClone {
    pub parent_tid_: i32,
    pub own_ns_tid_: i32,
    pub clone_flags_: i32,
}

impl TraceTaskEventClone {
    pub fn parent_tid(&self) -> (r: i32)
        ensures
            r == self.parent_tid_,
    {
        self.parent_tid_
    }

    pub fn own_ns_tid(&self) -> (r: i32)
        ensures
            r == self.own_ns_tid_,
    {
        self.own_ns_tid_
    }

    pub fn clone_flags(&self) -> (r: i32)
        ensures
            r == self.clone_flags_,
    {
        self.clone_flags_
    }
}

/// A task called `exec`.
pub struct TraceTaskEventExec {
    pub file_name_: Vec<u8>,
    pub cmd_line_: Vec<Vec<u8>>,
    pub exe_base_: u64,
}

impl TraceTaskEventExec {
    pub fn file_name(&self) -> (r: &Vec<u8>)
        ensures
            *r == self.file_name_,
    {
        &self.file_name_
    }

    pub fn cmd_line(&self) -> (r: &Vec<Vec<u8>>)
        ensures
            *r == self.cmd_line_,
    {
        &self.cmd_line_
    }

    pub fn exe_base(&self) -> (r: u64)
        ensures
            r == self.exe_base_,
    {
        self.exe_base_
    }
}

/// A task exited.
#[derive(Clone, Copy, Debug, PartialEq, Eq, Structural)]
pub struct TraceTaskEventExit {
    pub exit_status_: WaitStatus,
}

impl TraceTaskEventExit {
    pub fn exit_status(&self) -> (r: WaitStatus)
        ensures
            r == self.exit_status_,
    {
        self.exit_status_
    }
}

/// What happened to a task.
pub enum TraceTaskEventType {
    Clone(TraceTaskEventClone),
    Exec(TraceTaskEventExec),
    Exit(TraceTaskEventExit),
}

/// An event in the life of the task `tid_`.
pub struct TraceTaskEvent {
    pub type_: TraceTaskEventType,
    pub tid_: i32,
}

impl TraceTaskEvent {
    /// What the event says of the clone that it is.
    pub fn clone_type(&self) -> (r: &TraceTaskEventClone)
        requires
            self.type_ is Clone,
        ensures
            self.type_ == TraceTaskEventType::Clone(*r),
    {
        match &self.type_ {
            TraceTaskEventType::Clone(v) => v,
            _ => vstd::pervasive::unreached(),
        }
    }

    /// What the event says of the exec that it is.
    pub fn exec_type(&self) -> (r: &TraceTaskEventExec)
        requires
            self.type_ is Exec,
        ensures
            self.type_ == TraceTaskEventType::Exec(*r),
    {
        match &self.type_ {
            TraceTaskEventType::Exec(v) => v,
            _ => vstd::pervasive::unreached(),
        }
    }

    /// What the event says of the exit that it is.
    pub fn exit_type(&self) -> (r: &TraceTaskEventExit)
        requires
            self.type_ is Exit,
        ensures
            self.type_ == TraceTaskEventType::Exit(*r),
    {
        match &self.type_ {
            TraceTaskEventType::Exit(v) => v,
            _ => vstd::pervasive::unreached(),
        }
    }

    pub fn tid(&self) -> (r: i32)
        ensures
            r == self.tid_,
    {
        self.tid_
    }

    pub fn event_type(&self) -> (r: &TraceTaskEventType)
        ensures
            *r == self.type_,
    {
        &self.type_
    }
}

} // verus!
