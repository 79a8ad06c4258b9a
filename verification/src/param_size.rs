//! How many bytes of a syscall's memory parameter to record.
//!
//! A parameter has an incoming size, known before the syscall runs, which
//! bounds what the kernel may write. The final size may be further limited by
//! the syscall's result or by a number the kernel leaves in memory. Several
//! parameters may share one such source, which they then use up in the order
//! in which they were registered.

use crate::byte_codec::{le_u32, le_u64, read_le_u32, read_le_u64, u32_le, u64_le};
use crate::byte_codec::{push_le_u32, push_le_u64};
use crate::kernel_abi::SupportedArch;
use crate::record_task::{RecordTask, RecordTaskView};
use crate::registers::{Registers, WORD32};
use crate::tracee_memory::{mem_mapped, mem_read, mem_write, MemImage, TraceeMemory};
use vstd::prelude::*;

verus! {

/// The largest incoming size a parameter can have.
pub const MAX_INCOMING_SIZE: usize = 0x7fff_ffff;

/// The smaller of two numbers.
pub open spec fn min_int(a: int, b: int) -> int {
    if a <= b {
        a
    } else {
        b
    }
}

/// `a - b`, or 0 where that is negative.
pub open spec fn minus_floor(a: int, b: int) -> int {
    if a >= b {
        a - b
    } else {
        0
    }
}

/// The number that tracee memory holds at `addr`, in a cell of `read_size`
/// bytes (4 or 8).
pub open spec fn mem_number(m: MemImage, addr: int, read_size: usize) -> int {
    if read_size == 4 {
        le_u32(mem_read(m, addr, 4)) as int
    } else {
        le_u64(mem_read(m, addr, 8)) as int
    }
}

/// The pointer that tracee memory holds at `addr`.
pub open spec fn mem_pointer(m: MemImage, addr: int, arch: SupportedArch) -> u64 {
    match arch {
        SupportedArch::X86 => le_u32(mem_read(m, addr, 4)) as u64,
        SupportedArch::X64 => le_u64(mem_read(m, addr, 8)),
    }
}

/// The bytes of a pointer of `arch` that holds `value`; on x86 the low 32
/// bits of it.
pub open spec fn pointer_bytes(arch: SupportedArch, value: u64) -> Seq<u8> {
    match arch {
        SupportedArch::X86 => u32_le((value % WORD32) as u32),
        SupportedArch::X64 => u64_le(value),
    }
}

/// Read the number in the `read_size`-byte cell at `addr`.
pub fn read_number(mem: &TraceeMemory, addr: u64, read_size: usize) -> (r: u64)
    requires
        read_size == 4 || read_size == 8,
        mem_mapped(mem@, addr as int, read_size as int),
    ensures
        r == mem_number(mem@, addr as int, read_size),
{
    let bytes = mem.read_bytes(addr, read_size).unwrap();
    assert(bytes@.skip(0) =~= bytes@);
    if read_size == 4 {
        read_le_u32(&bytes, 0) as u64
    } else {
        read_le_u64(&bytes, 0)
    }
}

/// Read the pointer that the tracee holds at `addr`.
pub fn get_remote_ptr(t: &RecordTask, addr: u64) -> (r: u64)
    requires
        mem_mapped(t.mem@, addr as int, crate::kernel_abi::word_size_spec(t.regs.arch) as int),
    ensures
        r == mem_pointer(t.mem@, addr as int, t.regs.arch),
{
    get_remote_ptr_arch(t.arch(), t, addr)
}

/// Read the pointer of `arch` that the tracee holds at `addr`.
pub fn get_remote_ptr_arch(arch: SupportedArch, t: &RecordTask, addr: u64) -> (r: u64)
    requires
        mem_mapped(t.mem@, addr as int, crate::kernel_abi::word_size_spec(arch) as int),
    ensures
        r == mem_pointer(t.mem@, addr as int, arch),
{
    match arch {
        SupportedArch::X86 => read_number(&t.mem, addr, 4),
        SupportedArch::X64 => read_number(&t.mem, addr, 8),
    }
}

/// Store `value` as the pointer that the tracee holds at `addr`.
pub fn set_remote_ptr(t: &mut RecordTask, addr: u64, value: u64)
    requires
        mem_mapped(
            old(t).mem@,
            addr as int,
            crate::kernel_abi::word_size_spec(old(t).regs.arch) as int,
        ),
    ensures
        final(t).mem@ == mem_write(
            old(t).mem@,
            addr as int,
            pointer_bytes(old(t).regs.arch, value),
        ),
        final(t)@ == (RecordTaskView { mem: final(t)@.mem, ..old(t)@ }),
{
    let arch = t.arch();
    set_remote_ptr_arch(arch, t, addr, value);
}

/// Store `value` as the pointer of `arch` that the tracee holds at `addr`.
pub fn set_remote_ptr_arch(arch: SupportedArch, t: &mut RecordTask, addr: u64, value: u64)
    requires
        mem_mapped(old(t).mem@, addr as int, crate::kernel_abi::word_size_spec(arch) as int),
    ensures
        final(t).mem@ == mem_write(old(t).mem@, addr as int, pointer_bytes(arch, value)),
        final(t)@ == (RecordTaskView { mem: final(t)@.mem, ..old(t)@ }),
{
    let mut bytes: Vec<u8> = Vec::new();
    match arch {
        SupportedArch::X86 => {
            push_le_u32(&mut bytes, (value % WORD32) as u32);
        },
        SupportedArch::X64 => {
            push_le_u64(&mut bytes, value);
        },
    }
    assert(bytes@ =~= pointer_bytes(arch, value));
    let ok = t.mem.write_bytes(addr, &bytes);
    assert(ok);
}

/// `scratch` rounded up to a multiple of `amount`.
pub open spec fn aligned_up(scratch: int, amount: int) -> int {
    ((scratch + amount - 1) / amount) * amount
}

/// Round `scratch` up to a multiple of `maybe_amount`, or of 8 if that is
/// `None`.
pub fn align_scratch(scratch: &mut u64, maybe_amount: Option<usize>)
    requires
        maybe_amount is Some ==> maybe_amount->Some_0 > 0,
        *old(scratch) + (if maybe_amount is Some {
            maybe_amount->Some_0
        } else {
            8usize
        }) - 1 <= u64::MAX,
    ensures
        *final(scratch) == aligned_up(
            *old(scratch) as int,
            (if maybe_amount is Some {
                maybe_amount->Some_0
            } else {
                8usize
            }) as int,
        ),
        *old(scratch) <= *final(scratch) < *old(scratch) + (if maybe_amount is Some {
            maybe_amount->Some_0
        } else {
            8usize
        }),
{
    let amount: u64 = match maybe_amount {
        Some(a) => a as u64,
        None => 8,
    };
    let s: u64 = *scratch;
    let q: u64 = (s + (amount - 1)) / amount;
    assert(q * amount <= s + amount - 1 && q * amount > s - 1) by (nonlinear_arith)
        requires
            q == (s + amount - 1) / (amount as int),
            amount > 0,
    ;
    *scratch = q * amount;
}

/// Modes used to register a syscall memory parameter.
#[derive(Clone, Copy, Debug, PartialEq, Eq, Structural)]
pub enum ArgMode {
    /// Read by the kernel only. Matters only where the recorder wants to
    /// change what the kernel reads without the tracee seeing the change.
    In,
    /// Written by the kernel only.
    Out,
    /// Read and written by the kernel.
    InOut,
    /// Read and written by the kernel, and not to be moved to scratch memory
    /// (a futex word has to stay where it is).
    InOutNoScratch,
}

impl Default for ArgMode {
    fn default() -> (r: ArgMode)
        ensures
            r == ArgMode::Out,
    {
        ArgMode::Out
    }
}

/// Whether syscall results are copied back from scratch memory.
#[derive(Clone, Copy, Debug, PartialEq, Eq, Structural)]
pub enum WriteBack {
    WriteBack,
    NoWriteBack,
}

/// How to determine the size of a syscall memory parameter.
#[derive(Clone, Copy, Debug, PartialEq, Eq, Structural)]
pub struct ParamSize {
    /// Bound known before the syscall runs; what is set aside in scratch
    /// memory.
    pub incoming_size: usize,
    /// If not 0, the size is limited by the number at this address after the
    /// syscall.
    pub mem_ptr: u64,
    /// Size in bytes of the number at `mem_ptr` or in the result register.
    pub read_size: usize,
    /// If true, the size is limited by the syscall's result.
    pub from_syscall: bool,
}

/// `siz`, or the largest incoming size if `siz` is beyond it.
pub open spec fn capped_size(siz: int) -> usize {
    if siz > MAX_INCOMING_SIZE {
        MAX_INCOMING_SIZE
    } else {
        siz as usize
    }
}

impl ParamSize {
    /// The incoming size is within its cap, and a dynamic source has a cell
    /// size that can be read.
    pub open spec fn wf(self) -> bool {
        &&& self.incoming_size <= MAX_INCOMING_SIZE
        &&& (self.mem_ptr != 0 || self.from_syscall) ==> (self.read_size == 4 || self.read_size
            == 8)
    }

    /// A size fixed before the syscall: `siz`, capped.
    pub open spec fn fixed(siz: usize) -> ParamSize {
        ParamSize {
            incoming_size: capped_size(siz as int),
            mem_ptr: 0,
            read_size: 0,
            from_syscall: false,
        }
    }

    /// A size fixed before the syscall: `siz`, capped at `MAX_INCOMING_SIZE`.
    pub fn from_size(siz: usize) -> (r: ParamSize)
        ensures
            r == ParamSize::fixed(siz),
            r.wf(),
    {
        ParamSize {
            incoming_size: if siz > MAX_INCOMING_SIZE {
                MAX_INCOMING_SIZE
            } else {
                siz
            },
            mem_ptr: 0,
            read_size: 0,
            from_syscall: false,
        }
    }

    /// `p` points to a cell of `read_size` bytes that the tracee has set to
    /// the most it accepts, and that the kernel sets to what it wrote when
    /// the syscall returns. A null `p` gives an incoming size of 0.
    pub fn from_initialized_mem(t: &RecordTask, p: u64, read_size: usize) -> (r: ParamSize)
        requires
            read_size == 4 || read_size == 8,
            p != 0 ==> mem_mapped(t.mem@, p as int, read_size as int),
        ensures
            r == (ParamSize {
                incoming_size: if p == 0 {
                    0
                } else {
                    capped_size(mem_number(t.mem@, p as int, read_size))
                },
                mem_ptr: p,
                read_size,
                from_syscall: false,
            }),
            r.wf(),
    {
        let incoming: u64 = if p == 0 {
            0
        } else {
            read_number(&t.mem, p, read_size)
        };
        ParamSize {
            incoming_size: if incoming > MAX_INCOMING_SIZE as u64 {
                MAX_INCOMING_SIZE
            } else {
                incoming as usize
            },
            mem_ptr: p,
            read_size,
            from_syscall: false,
        }
    }

    /// `p` points to a cell of `read_size` bytes that the kernel sets to
    /// what it wrote when the syscall returns, and that holds nothing of use
    /// before.
    pub fn from_mem(p: u64, read_size: usize) -> (r: ParamSize)
        requires
            read_size == 4 || read_size == 8,
        ensures
            r == (ParamSize { incoming_size: 0, mem_ptr: p, read_size, from_syscall: false }),
            r.wf(),
    {
        ParamSize { incoming_size: 0, mem_ptr: p, read_size, from_syscall: false }
    }

    /// The syscall's result, a number of `read_size` bytes, is the size.
    pub fn from_syscall_result(read_size: usize) -> (r: ParamSize)
        requires
            read_size == 4 || read_size == 8,
        ensures
            r == (ParamSize { incoming_size: 0, mem_ptr: 0, read_size, from_syscall: true }),
            r.wf(),
    {
        ParamSize { incoming_size: 0, mem_ptr: 0, read_size, from_syscall: true }
    }

    /// The syscall's result, a number of `read_size` bytes, is the size, and
    /// `incoming_size` bounds it.
    pub fn from_syscall_result_with_size(incoming_size: usize, read_size: usize) -> (r: ParamSize)
        requires
            read_size == 4 || read_size == 8,
        ensures
            r == (ParamSize {
                incoming_size: capped_size(incoming_size as int),
                mem_ptr: 0,
                read_size,
                from_syscall: true,
            }),
            r.wf(),
    {
        let base = ParamSize::from_size(incoming_size);
        ParamSize {
            incoming_size: base.incoming_size,
            mem_ptr: 0,
            read_size,
            from_syscall: true,
        }
    }

    /// The same size, at most `max`.
    pub fn limit_size(&self, max: usize) -> (r: ParamSize)
        ensures
            r == (ParamSize {
                incoming_size: min_int(self.incoming_size as int, max as int) as usize,
                ..*self
            }),
            self.wf() ==> r.wf(),
    {
        ParamSize {
            incoming_size: if self.incoming_size <= max {
                self.incoming_size
            } else {
                max
            },
            mem_ptr: self.mem_ptr,
            read_size: self.read_size,
            from_syscall: self.from_syscall,
        }
    }

    /// The number of bytes that the syscall's result stands for: nothing
    /// for an error, else the result as a number of `read_size` bytes.
    pub open spec fn syscall_size(self, regs: Registers) -> int {
        let result = regs.syscall_result_signed_spec();
        let size = if result < 0 {
            0
        } else {
            result
        };
        if self.read_size == 4 {
            size % 0x1_0000_0000
        } else {
            size
        }
    }

    /// The least of the incoming size and the dynamic sources: the number
    /// in the memory cell, if the size has one, and the number that the
    /// syscall's result stands for, if the size depends on it.
    pub open spec fn least_source(self, m: MemImage, regs: Registers) -> int {
        let s0 = self.incoming_size as int;
        let s1 = if self.mem_ptr != 0 {
            min_int(s0, mem_number(m, self.mem_ptr as int, self.read_size))
        } else {
            s0
        };
        if self.from_syscall {
            min_int(s1, self.syscall_size(regs))
        } else {
            s1
        }
    }

    /// The size of the parameter after the syscall. A size without a
    /// dynamic source is the incoming size. Any other is the least of the
    /// incoming size and the dynamic sources, less what the parameters
    /// registered before have taken, `already_consumed`, and not below 0.
    pub open spec fn eval_spec(self, m: MemImage, regs: Registers, already_consumed: int) -> int {
        if self.mem_ptr != 0 || self.from_syscall {
            minus_floor(self.least_source(m, regs), already_consumed)
        } else {
            self.incoming_size as int
        }
    }

    /// The memory that `eval` reads is mapped.
    pub open spec fn readable(self, m: MemImage) -> bool {
        self.mem_ptr != 0 ==> mem_mapped(m, self.mem_ptr as int, self.read_size as int)
    }

    /// The size of the parameter after the syscall. See `eval_spec`.
    pub fn eval(&self, t: &RecordTask, already_consumed: u64) -> (r: usize)
        requires
            self.wf(),
            self.readable(t.mem@),
        ensures
            r == self.eval_spec(t.mem@, t.regs, already_consumed as int),
            r <= self.incoming_size,
    {
        let mut s: u64 = self.incoming_size as u64;
        if self.mem_ptr == 0 && !self.from_syscall {
            return self.incoming_size;
        }
        if self.mem_ptr != 0 {
            let mem_size: u64 = read_number(&t.mem, self.mem_ptr, self.read_size);
            if mem_size < s {
                s = mem_size;
            }
        }
        if self.from_syscall {
            let result: i64 = t.regs.syscall_result_signed();
            let mut syscall_size: u64 = if result < 0 {
                0
            } else {
                result as u64
            };
            if self.read_size == 4 {
                syscall_size = syscall_size % WORD32;
            }
            if syscall_size < s {
                s = syscall_size;
            }
        }
        if s >= already_consumed {
            (s - already_consumed) as usize
        } else {
            0
        }
    }

    /// Whether `other` takes its dynamic size from the same source as this.
    pub open spec fn is_same_source_spec(self, other: ParamSize) -> bool {
        ((self.mem_ptr != 0 && other.mem_ptr == self.mem_ptr) || (self.from_syscall
            && other.from_syscall)) && self.read_size == other.read_size
    }

    /// Whether `other` takes its dynamic size from the same source as this.
    /// Parameters that share a source take from it in the order of their
    /// registration: what the ones before have taken counts against the
    /// next.
    pub fn is_same_source(&self, other: &ParamSize) -> (r: bool)
        ensures
            r == self.is_same_source_spec(*other),
    {
        ((self.mem_ptr != 0 && other.mem_ptr == self.mem_ptr) || (self.from_syscall
            && other.from_syscall)) && (self.read_size == other.read_size)
    }
}

impl From<usize> for ParamSize {
    fn from(siz: usize) -> (r: ParamSize) {
        ParamSize::from_size(siz)
    }
}

impl vstd::std_specs::convert::FromSpecImpl<usize> for ParamSize {
    open spec fn obeys_from_spec() -> bool {
        true
    }

    open spec fn from_spec(siz: usize) -> ParamSize {
        ParamSize::fixed(siz)
    }
}

/// No size is left of a source once a count that does not fit 64 bits was
/// taken from it.
pub proof fn lemma_eval_saturates(p: ParamSize, m: MemImage, regs: Registers, consumed: int)
    requires
        consumed >= u64::MAX,
    ensures
        p.eval_spec(m, regs, consumed) == p.eval_spec(m, regs, u64::MAX as int),
{
}

} // verus!
