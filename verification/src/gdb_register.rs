//! The numbers by which GDB names the registers of x86 and x86-64, and the
//! values of the registers that live in the user register file.

use crate::byte_codec::{push_le_u32, push_le_u64, u32_le, u64_le};
use crate::kernel_abi::SupportedArch;
use crate::registers::{Registers, WORD32};
use vstd::prelude::*;

verus! {

/// A register as GDB numbers it. The numbering depends on the architecture.
pub type GdbRegister = u32;

// x86.
pub const DREG_EAX: GdbRegister = 0;
pub const DREG_ECX: GdbRegister = 1;
pub const DREG_EDX: GdbRegister = 2;
pub const DREG_EBX: GdbRegister = 3;
pub const DREG_ESP: GdbRegister = 4;
pub const DREG_EBP: GdbRegister = 5;
pub const DREG_ESI: GdbRegister = 6;
pub const DREG_EDI: GdbRegister = 7;
pub const DREG_EIP: GdbRegister = 8;
pub const DREG_EFLAGS: GdbRegister = 9;
pub const DREG_CS: GdbRegister = 10;
pub const DREG_SS: GdbRegister = 11;
pub const DREG_DS: GdbRegister = 12;
pub const DREG_ES: GdbRegister = 13;
pub const DREG_FS: GdbRegister = 14;
pub const DREG_GS: GdbRegister = 15;
pub const DREG_ST0: GdbRegister = 16;
pub const DREG_ST7: GdbRegister = 23;
pub const DREG_FCTRL: GdbRegister = 24;
pub const DREG_FOP: GdbRegister = 31;
pub const DREG_XMM0: GdbRegister = 32;
pub const DREG_XMM7: GdbRegister = 39;
pub const DREG_MXCSR: GdbRegister = 40;
pub const DREG_ORIG_EAX: GdbRegister = 41;
pub const DREG_YMM0H: GdbRegister = 42;
pub const DREG_YMM7H: GdbRegister = 49;

// x86-64.
pub const DREG_RAX: GdbRegister = 0;
pub const DREG_RBX: GdbRegister = 1;
pub const DREG_RCX: GdbRegister = 2;
pub const DREG_RDX: GdbRegister = 3;
pub const DREG_RSI: GdbRegister = 4;
pub const DREG_RDI: GdbRegister = 5;
pub const DREG_RBP: GdbRegister = 6;
pub const DREG_RSP: GdbRegister = 7;
pub const DREG_R8: GdbRegister = 8;
pub const DREG_R9: GdbRegister = 9;
pub const DREG_R10: GdbRegister = 10;
pub const DREG_R11: GdbRegister = 11;
pub const DREG_R12: GdbRegister = 12;
pub const DREG_R13: GdbRegister = 13;
pub const DREG_R14: GdbRegister = 14;
pub const DREG_R15: GdbRegister = 15;
pub const DREG_RIP: GdbRegister = 16;
pub const DREG_64_EFLAGS: GdbRegister = 17;
pub const DREG_64_CS: GdbRegister = 18;
pub const DREG_64_SS: GdbRegister = 19;
pub const DREG_64_DS: GdbRegister = 20;
pub const DREG_64_ES: GdbRegister = 21;
pub const DREG_64_FS: GdbRegister = 22;
pub const DREG_64_GS: GdbRegister = 23;
pub const DREG_64_ST0: GdbRegister = 24;
pub const DREG_64_ST7: GdbRegister = 31;
pub const DREG_64_FCTRL: GdbRegister = 32;
pub const DREG_64_FOP: GdbRegister = 39;
pub const DREG_64_XMM0: GdbRegister = 40;
pub const DREG_64_XMM15: GdbRegister = 55;
pub const DREG_64_MXCSR: GdbRegister = 56;
pub const DREG_ORIG_RAX: GdbRegister = 57;
pub const DREG_FS_BASE: GdbRegister = 58;
pub const DREG_GS_BASE: GdbRegister = 59;
pub const DREG_64_YMM0H: GdbRegister = 60;
pub const DREG_64_YMM15H: GdbRegister = 75;

/// A register of the user register file: what it holds and how many bytes
/// of it GDB is given.
pub struct UserRegister {
    pub value: u64,
    pub size: usize,
}

/// The user register that GDB calls `regname`, if it is one.
pub open spec fn user_register(regs: Registers, regname: GdbRegister) -> Option<UserRegister> {
    match regs.arch {
        SupportedArch::X86 => if regname == DREG_EAX {
            Some(UserRegister { value: regs.ax, size: 4 })
        } else if regname == DREG_ECX {
            Some(UserRegister { value: regs.cx, size: 4 })
        } else if regname == DREG_EDX {
            Some(UserRegister { value: regs.dx, size: 4 })
        } else if regname == DREG_EBX {
            Some(UserRegister { value: regs.bx, size: 4 })
        } else if regname == DREG_ESP {
            Some(UserRegister { value: regs.sp, size: 4 })
        } else if regname == DREG_EBP {
            Some(UserRegister { value: regs.bp, size: 4 })
        } else if regname == DREG_ESI {
            Some(UserRegister { value: regs.si, size: 4 })
        } else if regname == DREG_EDI {
            Some(UserRegister { value: regs.di, size: 4 })
        } else if regname == DREG_EIP {
            Some(UserRegister { value: regs.ip, size: 4 })
        } else if regname == DREG_EFLAGS {
            Some(UserRegister { value: regs.flags, size: 4 })
        } else if regname == DREG_CS {
            Some(UserRegister { value: regs.cs, size: 4 })
        } else if regname == DREG_SS {
            Some(UserRegister { value: regs.ss, size: 4 })
        } else if regname == DREG_DS {
            Some(UserRegister { value: regs.ds, size: 4 })
        } else if regname == DREG_ES {
            Some(UserRegister { value: regs.es, size: 4 })
        } else if regname == DREG_FS {
            Some(UserRegister { value: regs.fs, size: 4 })
        } else if regname == DREG_GS {
            Some(UserRegister { value: regs.gs, size: 4 })
        } else if regname == DREG_ORIG_EAX {
            Some(UserRegister { value: regs.orig_ax, size: 4 })
        } else {
            None
        },
        SupportedArch::X64 => if regname == DREG_RAX {
            Some(UserRegister { value: regs.ax, size: 8 })
        } else if regname == DREG_RBX {
            Some(UserRegister { value: regs.bx, size: 8 })
        } else if regname == DREG_RCX {
            Some(UserRegister { value: regs.cx, size: 8 })
        } else if regname == DREG_RDX {
            Some(UserRegister { value: regs.dx, size: 8 })
        } else if regname == DREG_RSI {
            Some(UserRegister { value: regs.si, size: 8 })
        } else if regname == DREG_RDI {
            Some(UserRegister { value: regs.di, size: 8 })
        } else if regname == DREG_RBP {
            Some(UserRegister { value: regs.bp, size: 8 })
        } else if regname == DREG_RSP {
            Some(UserRegister { value: regs.sp, size: 8 })
        } else if regname == DREG_R8 {
            Some(UserRegister { value: regs.r8, size: 8 })
        } else if regname == DREG_R9 {
            Some(UserRegister { value: regs.r9, size: 8 })
        } else if regname == DREG_R10 {
            Some(UserRegister { value: regs.r10, size: 8 })
        } else if regname == DREG_R11 {
            Some(UserRegister { value: regs.r11, size: 8 })
        } else if regname == DREG_R12 {
            Some(UserRegister { value: regs.r12, size: 8 })
        } else if regname == DREG_R13 {
            Some(UserRegister { value: regs.r13, size: 8 })
        } else if regname == DREG_R14 {
            Some(UserRegister { value: regs.r14, size: 8 })
        } else if regname == DREG_R15 {
            Some(UserRegister { value: regs.r15, size: 8 })
        } else if regname == DREG_RIP {
            Some(UserRegister { value: regs.ip, size: 8 })
        } else if regname == DREG_64_EFLAGS {
            Some(UserRegister { value: regs.flags, size: 4 })
        } else if regname == DREG_64_CS {
            Some(UserRegister { value: regs.cs, size: 4 })
        } else if regname == DREG_64_SS {
            Some(UserRegister { value: regs.ss, size: 4 })
        } else if regname == DREG_64_DS {
            Some(UserRegister { value: regs.ds, size: 4 })
        } else if regname == DREG_64_ES {
            Some(UserRegister { value: regs.es, size: 4 })
        } else if regname == DREG_64_FS {
            Some(UserRegister { value: regs.fs, size: 4 })
        } else if regname == DREG_64_GS {
            Some(UserRegister { value: regs.gs, size: 4 })
        } else if regname == DREG_ORIG_RAX {
            Some(UserRegister { value: regs.orig_ax, size: 8 })
        } else if regname == DREG_FS_BASE {
            Some(UserRegister { value: regs.fs_base, size: 8 })
        } else if regname == DREG_GS_BASE {
            Some(UserRegister { value: regs.gs_base, size: 8 })
        } else {
            None
        },
    }
}

/// The bytes GDB is given of a user register: as many of its low bytes as
/// its size says, least significant first.
pub open spec fn user_register_bytes(r: UserRegister) -> Seq<u8> {
    if r.size == 4 {
        u32_le((r.value % WORD32) as u32)
    } else {
        u64_le(r.value)
    }
}

/// The user register that GDB calls `regname`, if it is one.
pub fn find_user_register(regs: &Registers, regname: GdbRegister) -> (r: Option<UserRegister>)
    ensures
        r == user_register(*regs, regname),
{
    match regs.arch {
        SupportedArch::X86 => if regname == DREG_EAX {
            Some(UserRegister { value: regs.ax, size: 4 })
        } else if regname == DREG_ECX {
            Some(UserRegister { value: regs.cx, size: 4 })
        } else if regname == DREG_EDX {
            Some(UserRegister { value: regs.dx, size: 4 })
        } else if regname == DREG_EBX {
            Some(UserRegister { value: regs.bx, size: 4 })
        } else if regname == DREG_ESP {
            Some(UserRegister { value: regs.sp, size: 4 })
        } else if regname == DREG_EBP {
            Some(UserRegister { value: regs.bp, size: 4 })
        } else if regname == DREG_ESI {
            Some(UserRegister { value: regs.si, size: 4 })
        } else if regname == DREG_EDI {
            Some(UserRegister { value: regs.di, size: 4 })
        } else if regname == DREG_EIP {
            Some(UserRegister { value: regs.ip, size: 4 })
        } else if regname == DREG_EFLAGS {
            Some(UserRegister { value: regs.flags, size: 4 })
        } else if regname == DREG_CS {
            Some(UserRegister { value: regs.cs, size: 4 })
        } else if regname == DREG_SS {
            Some(UserRegister { value: regs.ss, size: 4 })
        } else if regname == DREG_DS {
            Some(UserRegister { value: regs.ds, size: 4 })
        } else if regname == DREG_ES {
            Some(UserRegister { value: regs.es, size: 4 })
        } else if regname == DREG_FS {
            Some(UserRegister { value: regs.fs, size: 4 })
        } else if regname == DREG_GS {
            Some(UserRegister { value: regs.gs, size: 4 })
        } else if regname == DREG_ORIG_EAX {
            Some(UserRegister { value: regs.orig_ax, size: 4 })
        } else {
            None
        },
        SupportedArch::X64 => if regname == DREG_RAX {
            Some(UserRegister { value: regs.ax, size: 8 })
        } else if regname == DREG_RBX {
            Some(UserRegister { value: regs.bx, size: 8 })
        } else if regname == DREG_RCX {
            Some(UserRegister { value: regs.cx, size: 8 })
        } else if regname == DREG_RDX {
            Some(UserRegister { value: regs.dx, size: 8 })
        } else if regname == DREG_RSI {
            Some(UserRegister { value: regs.si, size: 8 })
        } else if regname == DREG_RDI {
            Some(UserRegister { value: regs.di, size: 8 })
        } else if regname == DREG_RBP {
            Some(UserRegister { value: regs.bp, size: 8 })
        } else if regname == DREG_RSP {
            Some(UserRegister { value: regs.sp, size: 8 })
        } else if regname == DREG_R8 {
            Some(UserRegister { value: regs.r8, size: 8 })
        } else if regname == DREG_R9 {
            Some(UserRegister { value: regs.r9, size: 8 })
        } else if regname == DREG_R10 {
            Some(UserRegister { value: regs.r10, size: 8 })
        } else if regname == DREG_R11 {
            Some(UserRegister { value: regs.r11, size: 8 })
        } else if regname == DREG_R12 {
            Some(UserRegister { value: regs.r12, size: 8 })
        } else if regname == DREG_R13 {
            Some(UserRegister { value: regs.r13, size: 8 })
        } else if regname == DREG_R14 {
            Some(UserRegister { value: regs.r14, size: 8 })
        } else if regname == DREG_R15 {
            Some(UserRegister { value: regs.r15, size: 8 })
        } else if regname == DREG_RIP {
            Some(UserRegister { value: regs.ip, size: 8 })
        } else if regname == DREG_64_EFLAGS {
            Some(UserRegister { value: regs.flags, size: 4 })
        } else if regname == DREG_64_CS {
            Some(UserRegister { value: regs.cs, size: 4 })
        } else if regname == DREG_64_SS {
            Some(UserRegister { value: regs.ss, size: 4 })
        } else if regname == DREG_64_DS {
            Some(UserRegister { value: regs.ds, size: 4 })
        } else if regname == DREG_64_ES {
            Some(UserRegister { value: regs.es, size: 4 })
        } else if regname == DREG_64_FS {
            Some(UserRegister { value: regs.fs, size: 4 })
        } else if regname == DREG_64_GS {
            Some(UserRegister { value: regs.gs, size: 4 })
        } else if regname == DREG_ORIG_RAX {
            Some(UserRegister { value: regs.orig_ax, size: 8 })
        } else if regname == DREG_FS_BASE {
            Some(UserRegister { value: regs.fs_base, size: 8 })
        } else if regname == DREG_GS_BASE {
            Some(UserRegister { value: regs.gs_base, size: 8 })
        } else {
            None
        },
    }
}

/// The bytes of the register that GDB calls `regname`, or `None` if the
/// user register file holds no such register.
pub open spec fn read_register_spec(regs: Registers, regname: GdbRegister) -> Option<Seq<u8>> {
    match user_register(regs, regname) {
        Some(r) => Some(user_register_bytes(r)),
        None => None,
    }
}

/// Read the register that GDB calls `regname` from the user register file:
/// its bytes, least significant first, or `None` if it is not there.
pub fn read_register(regs: &Registers, regname: GdbRegister) -> (r: Option<Vec<u8>>)
    ensures
        match r {
            Some(bytes) => read_register_spec(*regs, regname) == Some(bytes@),
            None => read_register_spec(*regs, regname) is None,
        },
{
    match find_user_register(regs, regname) {
        Some(reg) => {
            let mut out: Vec<u8> = Vec::new();
            if reg.size == 4 {
                push_le_u32(&mut out, (reg.value % WORD32) as u32);
            } else {
                push_le_u64(&mut out, reg.value);
            }
            assert(out@ =~= user_register_bytes(reg));
            Some(out)
        },
        None => None,
    }
}

/// The value of a register that lives outside the user register file.
pub struct ExtraRegisterValue {
    pub name: GdbRegister,
    pub bytes: Vec<u8>,
}

/// The floating-point and vector registers of a task, as far as GDB can ask
/// for them, each under the number GDB gives it.
pub struct ExtraRegisters {
    pub values: Vec<ExtraRegisterValue>,
}

/// The bytes of the first of `values` that is called `regname`.
pub open spec fn extra_register_spec(values: Seq<ExtraRegisterValue>, regname: GdbRegister)
    -> Option<Seq<u8>>
    decreases values.len(),
{
    if values.len() == 0 {
        None
    } else if values[0].name == regname {
        Some(values[0].bytes@)
    } else {
        extra_register_spec(values.skip(1), regname)
    }
}

impl ExtraRegisters {
    /// No register.
    pub fn new() -> (r: ExtraRegisters)
        ensures
            r.values@.len() == 0,
    {
        ExtraRegisters { values: Vec::new() }
    }

    /// Read the register that GDB calls `regname`: its bytes, or `None` if
    /// it is not among these.
    pub fn read_register(&self, regname: GdbRegister) -> (r: Option<Vec<u8>>)
        ensures
            match r {
                Some(bytes) => extra_register_spec(self.values@, regname) == Some(bytes@),
                None => extra_register_spec(self.values@, regname) is None,
            },
    {
        let mut i: usize = 0;
        assert(self.values@.skip(0) =~= self.values@);
        while i < self.values.len()
            invariant
                i <= self.values.len(),
                extra_register_spec(self.values@, regname) == extra_register_spec(
                    self.values@.skip(i as int),
                    regname,
                ),
            decreases self.values.len() - i,
        {
            assert(self.values@.skip(i as int)[0] == self.values@[i as int]);
            assert(self.values@.skip(i as int).skip(1) =~= self.values@.skip(i + 1));
            if self.values[i].name == regname {
                return Some(self.values[i].bytes.clone());
            }
            i = i + 1;
        }
        None
    }
}

} // verus!
