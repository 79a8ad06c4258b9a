//! General-purpose register file of a traced x86 or x86-64 task, with the
//! syscall calling convention of each architecture.

use crate::kernel_abi::SupportedArch;
use vstd::prelude::*;

verus! {

/// Two to the power 32.
pub const WORD32: u64 = 0x1_0000_0000;

/// A 64-bit register value read as a two's-complement number.
pub open spec fn signed64(x: u64) -> int {
    if x >= 0x8000_0000_0000_0000 {
        x - 0x1_0000_0000_0000_0000
    } else {
        x as int
    }
}

/// A 32-bit register value read as a two's-complement number.
pub open spec fn signed32(x: u64) -> int {
    let low = x % WORD32;
    if low >= 0x8000_0000 {
        low - 0x1_0000_0000
    } else {
        low as int
    }
}

/// The 64-bit two's-complement encoding of `v`.
pub open spec fn unsigned64(v: i64) -> u64 {
    if v < 0 {
        (v + 0x1_0000_0000_0000_0000) as u64
    } else {
        v as u64
    }
}

/// The 32-bit two's-complement encoding of `v`.
pub open spec fn unsigned32(v: i32) -> u32 {
    if v < 0 {
        (v + 0x1_0000_0000) as u32
    } else {
        v as u32
    }
}

pub fn to_unsigned32(v: i32) -> (r: u32)
    ensures
        r == unsigned32(v),
{
    if v < 0 {
        let d: i32 = v - i32::MIN;
        (d as u32) + 0x8000_0000
    } else {
        v as u32
    }
}

pub fn to_signed64(x: u64) -> (r: i64)
    ensures
        r == signed64(x),
{
    if x >= 0x8000_0000_0000_0000 {
        let d: u64 = x - 0x8000_0000_0000_0000;
        (d as i64) + i64::MIN
    } else {
        x as i64
    }
}

pub fn to_signed32(x: u64) -> (r: i64)
    ensures
        r == signed32(x),
{
    let low: u64 = x % WORD32;
    if low >= 0x8000_0000 {
        (low as i64) - 0x1_0000_0000
    } else {
        low as i64
    }
}

pub fn to_unsigned64(v: i64) -> (r: u64)
    ensures
        r == unsigned64(v),
        signed64(r) == v,
{
    if v < 0 {
        let d: i64 = v - i64::MIN;
        (d as u64) + 0x8000_0000_0000_0000
    } else {
        v as u64
    }
}

/// The user-visible registers. On x86 only the low 32 bits of each general
/// register are meaningful, and the setters keep the rest zero.
#[derive(Clone, Copy, Debug, PartialEq, Eq, Structural)]
pub struct Registers {
    pub arch: SupportedArch,
    pub ax: u64,
    pub bx: u64,
    pub cx: u64,
    pub dx: u64,
    pub si: u64,
    pub di: u64,
    pub bp: u64,
    pub sp: u64,
    pub r8: u64,
    pub r9: u64,
    pub r10: u64,
    pub r11: u64,
    pub r12: u64,
    pub r13: u64,
    pub r14: u64,
    pub r15: u64,
    pub ip: u64,
    pub flags: u64,
    pub orig_ax: u64,
    pub cs: u64,
    pub ss: u64,
    pub ds: u64,
    pub es: u64,
    pub fs: u64,
    pub gs: u64,
    pub fs_base: u64,
    pub gs_base: u64,
}

/// What a register of `arch` holds after `value` is stored in it.
pub open spec fn fit(arch: SupportedArch, value: u64) -> u64 {
    match arch {
        SupportedArch::X86 => value % WORD32,
        SupportedArch::X64 => value,
    }
}

impl Registers {
    /// All registers zero.
    pub open spec fn zeroed(arch: SupportedArch) -> Registers {
        Registers {
            arch,
            ax: 0,
            bx: 0,
            cx: 0,
            dx: 0,
            si: 0,
            di: 0,
            bp: 0,
            sp: 0,
            r8: 0,
            r9: 0,
            r10: 0,
            r11: 0,
            r12: 0,
            r13: 0,
            r14: 0,
            r15: 0,
            ip: 0,
            flags: 0,
            orig_ax: 0,
            cs: 0,
            ss: 0,
            ds: 0,
            es: 0,
            fs: 0,
            gs: 0,
            fs_base: 0,
            gs_base: 0,
        }
    }

    pub fn new(arch: SupportedArch) -> (r: Registers)
        ensures
            r == Registers::zeroed(arch),
    {
        Registers {
            arch,
            ax: 0,
            bx: 0,
            cx: 0,
            dx: 0,
            si: 0,
            di: 0,
            bp: 0,
            sp: 0,
            r8: 0,
            r9: 0,
            r10: 0,
            r11: 0,
            r12: 0,
            r13: 0,
            r14: 0,
            r15: 0,
            ip: 0,
            flags: 0,
            orig_ax: 0,
            cs: 0,
            ss: 0,
            ds: 0,
            es: 0,
            fs: 0,
            gs: 0,
            fs_base: 0,
            gs_base: 0,
        }
    }

    pub fn arch(&self) -> (r: SupportedArch)
        ensures
            r == self.arch,
    {
        self.arch
    }

    /// The registers as a syscall of `arch` sees them: unchanged for the
    /// task's own architecture, else every register cut to what a register
    /// of `arch` holds.
    pub open spec fn converted_spec(self, arch: SupportedArch) -> Registers {
        if arch == self.arch {
            self
        } else {
            Registers {
                arch,
                ax: fit(arch, self.ax),
                bx: fit(arch, self.bx),
                cx: fit(arch, self.cx),
                dx: fit(arch, self.dx),
                si: fit(arch, self.si),
                di: fit(arch, self.di),
                bp: fit(arch, self.bp),
                sp: fit(arch, self.sp),
                r8: fit(arch, self.r8),
                r9: fit(arch, self.r9),
                r10: fit(arch, self.r10),
                r11: fit(arch, self.r11),
                r12: fit(arch, self.r12),
                r13: fit(arch, self.r13),
                r14: fit(arch, self.r14),
                r15: fit(arch, self.r15),
                ip: fit(arch, self.ip),
                flags: fit(arch, self.flags),
                orig_ax: fit(arch, self.orig_ax),
                cs: fit(arch, self.cs),
                ss: fit(arch, self.ss),
                ds: fit(arch, self.ds),
                es: fit(arch, self.es),
                fs: fit(arch, self.fs),
                gs: fit(arch, self.gs),
                fs_base: fit(arch, self.fs_base),
                gs_base: fit(arch, self.gs_base),
            }
        }
    }

    /// The registers as a syscall of `arch` sees them.
    pub fn converted(&self, arch: SupportedArch) -> (r: Registers)
        ensures
            r == self.converted_spec(arch),
    {
        match (arch, self.arch) {
            (SupportedArch::X86, SupportedArch::X64) => Registers {
                arch,
                ax: self.ax % WORD32,
                bx: self.bx % WORD32,
                cx: self.cx % WORD32,
                dx: self.dx % WORD32,
                si: self.si % WORD32,
                di: self.di % WORD32,
                bp: self.bp % WORD32,
                sp: self.sp % WORD32,
                r8: self.r8 % WORD32,
                r9: self.r9 % WORD32,
                r10: self.r10 % WORD32,
                r11: self.r11 % WORD32,
                r12: self.r12 % WORD32,
                r13: self.r13 % WORD32,
                r14: self.r14 % WORD32,
                r15: self.r15 % WORD32,
                ip: self.ip % WORD32,
                flags: self.flags % WORD32,
                orig_ax: self.orig_ax % WORD32,
                cs: self.cs % WORD32,
                ss: self.ss % WORD32,
                ds: self.ds % WORD32,
                es: self.es % WORD32,
                fs: self.fs % WORD32,
                gs: self.gs % WORD32,
                fs_base: self.fs_base % WORD32,
                gs_base: self.gs_base % WORD32,
            },
            (SupportedArch::X64, SupportedArch::X86) => Registers { arch, ..*self },
            _ => *self,
        }
    }

    /// Syscall argument `i`, counted from 1.
    pub open spec fn arg_spec(self, i: int) -> u64 {
        match self.arch {
            SupportedArch::X86 => if i == 1 {
                self.bx
            } else if i == 2 {
                self.cx
            } else if i == 3 {
                self.dx
            } else if i == 4 {
                self.si
            } else if i == 5 {
                self.di
            } else {
                self.bp
            },
            SupportedArch::X64 => if i == 1 {
                self.di
            } else if i == 2 {
                self.si
            } else if i == 3 {
                self.dx
            } else if i == 4 {
                self.r10
            } else if i == 5 {
                self.r8
            } else {
                self.r9
            },
        }
    }

    /// The registers with syscall argument `i` replaced by `value`.
    pub open spec fn with_arg(self, i: int, value: u64) -> Registers {
        let v = fit(self.arch, value);
        match self.arch {
            SupportedArch::X86 => if i == 1 {
                Registers { bx: v, ..self }
            } else if i == 2 {
                Registers { cx: v, ..self }
            } else if i == 3 {
                Registers { dx: v, ..self }
            } else if i == 4 {
                Registers { si: v, ..self }
            } else if i == 5 {
                Registers { di: v, ..self }
            } else {
                Registers { bp: v, ..self }
            },
            SupportedArch::X64 => if i == 1 {
                Registers { di: v, ..self }
            } else if i == 2 {
                Registers { si: v, ..self }
            } else if i == 3 {
                Registers { dx: v, ..self }
            } else if i == 4 {
                Registers { r10: v, ..self }
            } else if i == 5 {
                Registers { r8: v, ..self }
            } else {
                Registers { r9: v, ..self }
            },
        }
    }

    /// Syscall argument `i`, counted from 1.
    pub fn arg(&self, i: usize) -> (r: u64)
        requires
            1 <= i <= 6,
        ensures
            r == self.arg_spec(i as int),
    {
        match self.arch {
            SupportedArch::X86 => if i == 1 {
                self.bx
            } else if i == 2 {
                self.cx
            } else if i == 3 {
                self.dx
            } else if i == 4 {
                self.si
            } else if i == 5 {
                self.di
            } else {
                self.bp
            },
            SupportedArch::X64 => if i == 1 {
                self.di
            } else if i == 2 {
                self.si
            } else if i == 3 {
                self.dx
            } else if i == 4 {
                self.r10
            } else if i == 5 {
                self.r8
            } else {
                self.r9
            },
        }
    }

    pub fn arg1(&self) -> (r: u64)
        ensures
            r == self.arg_spec(1),
    {
        self.arg(1)
    }

    pub fn arg2(&self) -> (r: u64)
        ensures
            r == self.arg_spec(2),
    {
        self.arg(2)
    }

    pub fn arg3(&self) -> (r: u64)
        ensures
            r == self.arg_spec(3),
    {
        self.arg(3)
    }

    /// Store `value` as syscall argument `i`, counted from 1.
    pub fn set_arg(&mut self, i: usize, value: u64)
        requires
            1 <= i <= 6,
        ensures
            *final(self) == old(self).with_arg(i as int, value),
    {
        let v: u64 = match self.arch {
            SupportedArch::X86 => value % WORD32,
            SupportedArch::X64 => value,
        };
        match self.arch {
            SupportedArch::X86 => if i == 1 {
                self.bx = v;
            } else if i == 2 {
                self.cx = v;
            } else if i == 3 {
                self.dx = v;
            } else if i == 4 {
                self.si = v;
            } else if i == 5 {
                self.di = v;
            } else {
                self.bp = v;
            },
            SupportedArch::X64 => if i == 1 {
                self.di = v;
            } else if i == 2 {
                self.si = v;
            } else if i == 3 {
                self.dx = v;
            } else if i == 4 {
                self.r10 = v;
            } else if i == 5 {
                self.r8 = v;
            } else {
                self.r9 = v;
            },
        }
    }

    /// Store -1 as the first syscall argument, so that the kernel rejects the
    /// call's option.
    pub fn set_arg1_signed_minus_one(&mut self)
        ensures
            *final(self) == old(self).with_arg(1, u64::MAX),
    {
        self.set_arg(1, u64::MAX);
    }

    /// The syscall result register, as a signed number.
    pub open spec fn syscall_result_signed_spec(self) -> int {
        match self.arch {
            SupportedArch::X86 => signed32(self.ax),
            SupportedArch::X64 => signed64(self.ax),
        }
    }

    pub fn syscall_result(&self) -> (r: u64)
        ensures
            r == self.ax,
    {
        self.ax
    }

    pub fn syscall_result_signed(&self) -> (r: i64)
        ensures
            r == self.syscall_result_signed_spec(),
    {
        match self.arch {
            SupportedArch::X86 => to_signed32(self.ax),
            SupportedArch::X64 => to_signed64(self.ax),
        }
    }

    pub fn set_syscall_result(&mut self, value: u64)
        ensures
            *final(self) == (Registers { ax: fit(old(self).arch, value), ..*old(self) }),
    {
        self.ax = match self.arch {
            SupportedArch::X86 => value % WORD32,
            SupportedArch::X64 => value,
        };
    }

    pub fn set_syscall_result_signed(&mut self, value: i64)
        ensures
            *final(self) == (Registers {
                ax: fit(old(self).arch, unsigned64(value)),
                ..*old(self)
            }),
    {
        let v: u64 = to_unsigned64(value);
        self.set_syscall_result(v);
    }

    /// A syscall failed when its result is a negated errno.
    pub open spec fn syscall_failed_spec(self) -> bool {
        -4096 < self.syscall_result_signed_spec() < 0
    }

    pub fn syscall_failed(&self) -> (r: bool)
        ensures
            r == self.syscall_failed_spec(),
    {
        let result: i64 = self.syscall_result_signed();
        -4096 < result && result < 0
    }

    /// The syscall number the task entered the kernel with, as a signed
    /// number.
    pub open spec fn original_syscallno_spec(self) -> int {
        match self.arch {
            SupportedArch::X86 => signed32(self.orig_ax),
            SupportedArch::X64 => signed64(self.orig_ax),
        }
    }

    pub fn original_syscallno(&self) -> (r: i64)
        ensures
            r == self.original_syscallno_spec(),
    {
        match self.arch {
            SupportedArch::X86 => to_signed32(self.orig_ax),
            SupportedArch::X64 => to_signed64(self.orig_ax),
        }
    }

    pub fn sp(&self) -> (r: u64)
        ensures
            r == self.sp,
    {
        self.sp
    }

    pub fn ip(&self) -> (r: u64)
        ensures
            r == self.ip,
    {
        self.ip
    }
}

} // verus!
