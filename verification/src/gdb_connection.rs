//! What a GDB client asks and what it is told, as far as the debugging
//! engine sees it. The wire format is somebody else's business.

use crate::gdb_register::GdbRegister;
use crate::replay_timeline::RunDirection;
use vstd::prelude::*;

verus! {

/// The client understands 64-bit registers.
pub const CPU_64BIT: u32 = 0x1;

/// The client is shown the AVX registers.
pub const CPU_AVX: u32 = 0x2;

/// The most bytes a register value has.
pub const MAX_REGISTER_SIZE: usize = 16;

/// A thread as GDB names it. A pid or tid of 0 stands for any, -1 for all.
#[derive(Clone, Copy, Debug, PartialEq, Eq, Structural)]
pub struct GdbThreadId {
    pub pid: i32,
    pub tid: i32,
}

impl GdbThreadId {
    pub fn new(pid: i32, tid: i32) -> (r: GdbThreadId)
        ensures
            r == (GdbThreadId { pid, tid }),
    {
        GdbThreadId { pid, tid }
    }

    /// Any thread of any process.
    pub fn any() -> (r: GdbThreadId)
        ensures
            r == (GdbThreadId { pid: 0, tid: 0 }),
    {
        GdbThreadId { pid: 0, tid: 0 }
    }

    /// All threads of all processes.
    pub fn all() -> (r: GdbThreadId)
        ensures
            r == (GdbThreadId { pid: -1i32, tid: -1i32 }),
    {
        GdbThreadId { pid: -1, tid: -1 }
    }
}

/// What kind of request the client makes.
#[allow(non_camel_case_types)]
#[derive(Clone, Copy, Debug, PartialEq, Eq, Structural)]
pub enum GdbRequestType {
    DREQ_NONE,
    DREQ_GET_CURRENT_THREAD,
    DREQ_GET_OFFSETS,
    DREQ_GET_REGS,
    DREQ_GET_STOP_REASON,
    DREQ_GET_THREAD_LIST,
    DREQ_INTERRUPT,
    DREQ_DETACH,
    DREQ_GET_AUXV,
    DREQ_GET_EXEC_FILE,
    DREQ_GET_IS_THREAD_ALIVE,
    DREQ_GET_THREAD_EXTRA_INFO,
    DREQ_SET_CONTINUE_THREAD,
    DREQ_SET_QUERY_THREAD,
    DREQ_TLS,
    DREQ_WRITE_SIGINFO,
    DREQ_GET_MEM,
    DREQ_SET_MEM,
    DREQ_SEARCH_MEM,
    DREQ_READ_SIGINFO,
    DREQ_REMOVE_SW_BREAK,
    DREQ_REMOVE_HW_BREAK,
    DREQ_REMOVE_WR_WATCH,
    DREQ_REMOVE_RD_WATCH,
    DREQ_REMOVE_RDWR_WATCH,
    DREQ_SET_SW_BREAK,
    DREQ_SET_HW_BREAK,
    DREQ_SET_WR_WATCH,
    DREQ_SET_RD_WATCH,
    DREQ_SET_RDWR_WATCH,
    DREQ_GET_REG,
    DREQ_SET_REG,
    DREQ_CONT,
    DREQ_RESTART,
    DREQ_RD_CMD,
    DREQ_QSYMBOL,
    DREQ_FILE_SETFS,
    DREQ_FILE_OPEN,
    DREQ_FILE_PREAD,
    DREQ_FILE_CLOSE,
}

/// From where to restart the replay.
#[derive(Clone, Copy, Debug, PartialEq, Eq, Structural)]
pub enum GdbRestartType {
    RestartFromPrevious,
    RestartFromEvent,
    RestartFromCheckpoint,
}

/// A stretch of tracee memory to read, write or search.
pub struct GdbMem {
    pub addr: u64,
    pub len: usize,
    /// For a write, the bytes to write; for a search, the bytes to find.
    pub data: Vec<u8>,
}

/// A breakpoint or watchpoint to set or remove.
pub struct GdbWatch {
    pub addr: u64,
    pub kind: i32,
    /// The conditions under which it fires, each an expression in GDB's
    /// bytecode.
    pub conditions: Vec<Vec<u8>>,
}

/// A restart of the replay.
pub struct GdbRestart {
    /// The event or checkpoint to restart from.
    pub param: u64,
    /// `param` as the user wrote it.
    pub param_str: String,
    pub type_: GdbRestartType,
}

/// A resumption of the debuggee.
pub struct GdbCont {
    pub run_direction: RunDirection,
}

/// The process whose files later file requests are about; 0 for the
/// debuggee's.
pub struct GdbFileSetfs {
    pub pid: i32,
}

/// A file to open.
pub struct GdbFileOpen {
    pub file_name: String,
    pub flags: i32,
    pub mode: i32,
}

/// A read of `size` bytes at `offset` from the file that the client knows
/// as `fd`.
pub struct GdbFilePread {
    pub fd: i32,
    pub size: usize,
    pub offset: u64,
}

/// The file to close, as the client knows it.
pub struct GdbFileClose {
    pub fd: i32,
}

/// What a request carries, by its kind.
pub enum GdbRequestValue {
    GdbRequestNone,
    GdbRequestMem(GdbMem),
    GdbRequestWatch(GdbWatch),
    GdbRequestRestart(GdbRestart),
    GdbRequestRegisterValue(GdbRegisterValue),
    GdbRequestCont(GdbCont),
    /// The payload of a command of the server, as the user wrote it.
    GdbRequestText(Vec<u8>),
    GdbRequestFileSetfs(GdbFileSetfs),
    GdbRequestFileOpen(GdbFileOpen),
    GdbRequestFilePread(GdbFilePread),
    GdbRequestFileClose(GdbFileClose),
}

/// A request of the client.
pub struct GdbRequest {
    pub type_: GdbRequestType,
    pub value: GdbRequestValue,
    /// The thread the request is about.
    pub target: GdbThreadId,
    pub suppress_debugger_stop: bool,
}

impl GdbRequest {
    /// What a memory request carries.
    pub fn mem(&self) -> (r: &GdbMem)
        requires
            self.value is GdbRequestMem,
        ensures
            self.value == GdbRequestValue::GdbRequestMem(*r),
    {
        match &self.value {
            GdbRequestValue::GdbRequestMem(m) => m,
            _ => vstd::pervasive::unreached(),
        }
    }

    /// What a breakpoint or watchpoint request carries.
    pub fn watch(&self) -> (r: &GdbWatch)
        requires
            self.value is GdbRequestWatch,
        ensures
            self.value == GdbRequestValue::GdbRequestWatch(*r),
    {
        match &self.value {
            GdbRequestValue::GdbRequestWatch(w) => w,
            _ => vstd::pervasive::unreached(),
        }
    }

    /// What a restart request carries.
    pub fn restart(&self) -> (r: &GdbRestart)
        requires
            self.value is GdbRequestRestart,
        ensures
            self.value == GdbRequestValue::GdbRequestRestart(*r),
    {
        match &self.value {
            GdbRequestValue::GdbRequestRestart(x) => x,
            _ => vstd::pervasive::unreached(),
        }
    }

    /// What a resume request carries.
    pub fn cont(&self) -> (r: &GdbCont)
        requires
            self.value is GdbRequestCont,
        ensures
            self.value == GdbRequestValue::GdbRequestCont(*r),
    {
        match &self.value {
            GdbRequestValue::GdbRequestCont(c) => c,
            _ => vstd::pervasive::unreached(),
        }
    }

    /// What a request about a register carries.
    pub fn reg(&self) -> (r: &GdbRegisterValue)
        requires
            self.value is GdbRequestRegisterValue,
        ensures
            self.value == GdbRequestValue::GdbRequestRegisterValue(*r),
    {
        match &self.value {
            GdbRequestValue::GdbRequestRegisterValue(v) => v,
            _ => vstd::pervasive::unreached(),
        }
    }

    /// The payload of a command of the server.
    pub fn text(&self) -> (r: &Vec<u8>)
        requires
            self.value is GdbRequestText,
        ensures
            self.value == GdbRequestValue::GdbRequestText(*r),
    {
        match &self.value {
            GdbRequestValue::GdbRequestText(t) => t,
            _ => vstd::pervasive::unreached(),
        }
    }

    /// What a request to look at another process's files carries.
    pub fn file_setfs(&self) -> (r: &GdbFileSetfs)
        requires
            self.value is GdbRequestFileSetfs,
        ensures
            self.value == GdbRequestValue::GdbRequestFileSetfs(*r),
    {
        match &self.value {
            GdbRequestValue::GdbRequestFileSetfs(f) => f,
            _ => vstd::pervasive::unreached(),
        }
    }

    /// What a request to open a file carries.
    pub fn file_open(&self) -> (r: &GdbFileOpen)
        requires
            self.value is GdbRequestFileOpen,
        ensures
            self.value == GdbRequestValue::GdbRequestFileOpen(*r),
    {
        match &self.value {
            GdbRequestValue::GdbRequestFileOpen(f) => f,
            _ => vstd::pervasive::unreached(),
        }
    }

    /// What a request to read from a file carries.
    pub fn file_pread(&self) -> (r: &GdbFilePread)
        requires
            self.value is GdbRequestFilePread,
        ensures
            self.value == GdbRequestValue::GdbRequestFilePread(*r),
    {
        match &self.value {
            GdbRequestValue::GdbRequestFilePread(f) => f,
            _ => vstd::pervasive::unreached(),
        }
    }

    /// What a request to close a file carries.
    pub fn file_close(&self) -> (r: &GdbFileClose)
        requires
            self.value is GdbRequestFileClose,
        ensures
            self.value == GdbRequestValue::GdbRequestFileClose(*r),
    {
        match &self.value {
            GdbRequestValue::GdbRequestFileClose(f) => f,
            _ => vstd::pervasive::unreached(),
        }
    }
}

/// The value of a register, by its size.
pub enum GdbRegisterValueData {
    Value1(u8),
    Value2(u16),
    Value4(u32),
    Value8(u64),
    /// The bytes of a larger register, padded with zeros to
    /// `MAX_REGISTER_SIZE`.
    ValueGeneric(Vec<u8>),
}

/// A register as the client is told of it.
pub struct GdbRegisterValue {
    pub name: GdbRegister,
    pub value: GdbRegisterValueData,
    /// Whether the register has a value at all.
    pub defined: bool,
    /// How many bytes the value has.
    pub size: usize,
}

/// What the client can do.
#[derive(Clone, Copy, Debug, PartialEq, Eq, Structural)]
pub struct GdbConnectionFeatures {
    pub reverse_execution: bool,
}

impl Default for GdbConnectionFeatures {
    fn default() -> (r: GdbConnectionFeatures)
        ensures
            r.reverse_execution,
    {
        GdbConnectionFeatures { reverse_execution: true }
    }
}

} // verus!
