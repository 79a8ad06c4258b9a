//! Kernel ABI facts for the two supported guest architectures: syscall
//! numbers, word sizes, classic-BPF encodings, seccomp verdicts and the
//! `prctl` options the recorder looks at.

use vstd::prelude::*;

verus! {

/// Guest architecture of a traced task.
#[derive(Clone, Copy, Debug, PartialEq, Eq, Structural)]
pub enum SupportedArch {
    X86,
    X64,
}

/// Size in bytes of a pointer of `arch`.
pub open spec fn word_size_spec(arch: SupportedArch) -> usize {
    match arch {
        SupportedArch::X86 => 4,
        SupportedArch::X64 => 8,
    }
}

/// Size in bytes of a pointer of `arch`.
pub fn word_size(arch: SupportedArch) -> (r: usize)
    ensures
        r == word_size_spec(arch),
{
    match arch {
        SupportedArch::X86 => 4,
        SupportedArch::X64 => 8,
    }
}

pub const PAGE_SIZE: usize = 4096;

// Classic BPF instruction classes and fields.
pub const BPF_LD: u32 = 0x00;
pub const BPF_LDX: u32 = 0x01;
pub const BPF_ST: u32 = 0x02;
pub const BPF_STX: u32 = 0x03;
pub const BPF_ALU: u32 = 0x04;
pub const BPF_JMP: u32 = 0x05;
pub const BPF_RET: u32 = 0x06;
pub const BPF_MISC: u32 = 0x07;

pub const BPF_W: u32 = 0x00;
pub const BPF_IMM: u32 = 0x00;
pub const BPF_ABS: u32 = 0x20;
pub const BPF_MEM: u32 = 0x60;
pub const BPF_LEN: u32 = 0x80;

pub const BPF_JA: u32 = 0x00;
pub const BPF_JEQ: u32 = 0x10;
pub const BPF_JGT: u32 = 0x20;
pub const BPF_JGE: u32 = 0x30;
pub const BPF_JSET: u32 = 0x40;

pub const BPF_K: u32 = 0x00;
pub const BPF_X: u32 = 0x08;
pub const BPF_A: u32 = 0x10;

// Seccomp verdicts.
pub const SECCOMP_RET_TRACE: u32 = 0x7ff0_0000;
pub const SECCOMP_RET_ALLOW: u32 = 0x7fff_0000;
pub const SECCOMP_RET_DATA: u32 = 0x0000_ffff;
pub const SECCOMP_FILTER_FLAG_TSYNC: u32 = 1;

/// The operations of the `seccomp` syscall.
pub const SECCOMP_SET_MODE_STRICT: u32 = 0;
pub const SECCOMP_SET_MODE_FILTER: u32 = 1;

/// Number of 32-bit words in the `seccomp_data` record a filter inspects.
pub const SECCOMP_DATA_WORDS: usize = 16;

/// Byte offset of the instruction pointer inside `seccomp_data`.
pub const SECCOMP_DATA_IP_OFFSET: u32 = 8;

// `prctl` options.
pub const PR_SET_PDEATHSIG: u32 = 1;
pub const PR_GET_PDEATHSIG: u32 = 2;
pub const PR_GET_DUMPABLE: u32 = 3;
pub const PR_SET_DUMPABLE: u32 = 4;
pub const PR_GET_UNALIGN: u32 = 5;
pub const PR_GET_KEEPCAPS: u32 = 7;
pub const PR_SET_KEEPCAPS: u32 = 8;
pub const PR_GET_FPEMU: u32 = 9;
pub const PR_GET_FPEXC: u32 = 11;
pub const PR_SET_NAME: u32 = 15;
pub const PR_GET_NAME: u32 = 16;
pub const PR_GET_ENDIAN: u32 = 19;
pub const PR_GET_SECCOMP: u32 = 21;
pub const PR_SET_SECCOMP: u32 = 22;
pub const PR_CAPBSET_READ: u32 = 23;
pub const PR_CAPBSET_DROP: u32 = 24;
pub const PR_GET_TSC: u32 = 25;
pub const PR_SET_TSC: u32 = 26;
pub const PR_SET_TIMERSLACK: u32 = 29;
pub const PR_GET_TIMERSLACK: u32 = 30;
pub const PR_MCE_KILL: u32 = 33;
pub const PR_MCE_KILL_GET: u32 = 34;
pub const PR_SET_CHILD_SUBREAPER: u32 = 36;
pub const PR_GET_CHILD_SUBREAPER: u32 = 37;
pub const PR_SET_NO_NEW_PRIVS: u32 = 38;
pub const PR_GET_NO_NEW_PRIVS: u32 = 39;
pub const PR_CAP_AMBIENT: u32 = 47;
pub const PR_GET_SPECULATION_CTRL: u32 = 52;
pub const PR_SET_SPECULATION_CTRL: u32 = 53;
pub const PR_SET_PTRACER: u32 = 0x5961_6d61;

pub const PR_TSC_ENABLE: i32 = 1;
pub const PR_TSC_SIGSEGV: i32 = 2;

/// One classic-BPF instruction, as the kernel lays it out.
#[derive(Clone, Copy, Debug, PartialEq, Eq, Structural)]
#[allow(non_camel_case_types)]
pub struct sock_filter {
    pub code: u16,
    pub jt: u8,
    pub jf: u8,
    pub k: u32,
}

/// Syscall numbers the recorder treats specially.
#[derive(Clone, Copy, Debug, PartialEq, Eq, Structural)]
pub enum KnownSyscall {
    Read,
    Execve,
    Prctl,
    Seccomp,
    Sigreturn,
    RtSigreturn,
}

/// The number of `which` on `arch`.
pub open spec fn syscall_number_spec(which: KnownSyscall, arch: SupportedArch) -> i32 {
    match arch {
        SupportedArch::X86 => match which {
            KnownSyscall::Read => 3,
            KnownSyscall::Execve => 11,
            KnownSyscall::Prctl => 172,
            KnownSyscall::Seccomp => 354,
            KnownSyscall::Sigreturn => 119,
            KnownSyscall::RtSigreturn => 173,
        },
        SupportedArch::X64 => match which {
            KnownSyscall::Read => 0,
            KnownSyscall::Execve => 59,
            KnownSyscall::Prctl => 157,
            KnownSyscall::Seccomp => 317,
            // x86-64 has no plain sigreturn: the number is one no syscall has.
            KnownSyscall::Sigreturn => -1i32,
            KnownSyscall::RtSigreturn => 15,
        },
    }
}

/// The number of `which` on `arch`; -1 where `arch` has no such syscall.
pub fn syscall_number(which: KnownSyscall, arch: SupportedArch) -> (r: i32)
    ensures
        r == syscall_number_spec(which, arch),
{
    match arch {
        SupportedArch::X86 => match which {
            KnownSyscall::Read => 3,
            KnownSyscall::Execve => 11,
            KnownSyscall::Prctl => 172,
            KnownSyscall::Seccomp => 354,
            KnownSyscall::Sigreturn => 119,
            KnownSyscall::RtSigreturn => 173,
        },
        SupportedArch::X64 => match which {
            KnownSyscall::Read => 0,
            KnownSyscall::Execve => 59,
            KnownSyscall::Prctl => 157,
            KnownSyscall::Seccomp => 317,
            KnownSyscall::Sigreturn => -1i32,
            KnownSyscall::RtSigreturn => 15,
        },
    }
}

/// The number of `execve` on `arch`.
pub fn syscall_number_for_execve(arch: SupportedArch) -> (r: i32)
    ensures
        r == syscall_number_spec(KnownSyscall::Execve, arch),
{
    syscall_number(KnownSyscall::Execve, arch)
}

/// Whether `syscallno` is `seccomp` on `arch`.
pub fn is_seccomp_syscall(syscallno: i32, arch: SupportedArch) -> (r: bool)
    ensures
        r == (syscallno == syscall_number_spec(KnownSyscall::Seccomp, arch)),
{
    syscallno == syscall_number(KnownSyscall::Seccomp, arch)
}

pub open spec fn is_sigreturn_spec(syscallno: i32, arch: SupportedArch) -> bool {
    syscallno >= 0 && (syscallno == syscall_number_spec(KnownSyscall::Sigreturn, arch) || syscallno
        == syscall_number_spec(KnownSyscall::RtSigreturn, arch))
}

/// Whether `syscallno` is `sigreturn` or `rt_sigreturn` on `arch`.
pub fn is_sigreturn(syscallno: i32, arch: SupportedArch) -> (r: bool)
    ensures
        r == is_sigreturn_spec(syscallno, arch),
{
    syscallno >= 0 && (syscallno == syscall_number(KnownSyscall::Sigreturn, arch) || syscallno
        == syscall_number(KnownSyscall::RtSigreturn, arch))
}

/// `libc::SIGTRAP`: 5 on Linux.
#[verifier::external_body]
pub(crate) fn sigtrap() -> (r: i32)
    ensures
        r == 5,
{
    libc::SIGTRAP
}

/// `libc::SIGKILL`: 9 on Linux.
#[verifier::external_body]
pub(crate) fn sigkill() -> (r: i32)
    ensures
        r == 9,
{
    libc::SIGKILL
}

/// `libc::EINVAL`: 22 on Linux.
#[verifier::external_body]
pub(crate) fn einval() -> (r: i32)
    ensures
        r == 22,
{
    libc::EINVAL
}

/// `libc::ENOSYS`: 38 on x86 and x86-64 Linux.
#[verifier::external_body]
pub(crate) fn enosys() -> (r: i32)
    ensures
        r == 38,
{
    libc::ENOSYS
}

/// `libc::SECCOMP_MODE_STRICT`: 1.
#[verifier::external_body]
pub(crate) fn seccomp_mode_strict() -> (r: u32)
    ensures
        r == 1,
{
    libc::SECCOMP_MODE_STRICT
}

/// `libc::SECCOMP_MODE_FILTER`: 2.
#[verifier::external_body]
pub(crate) fn seccomp_mode_filter() -> (r: u32)
    ensures
        r == 2,
{
    libc::SECCOMP_MODE_FILTER
}

} // verus!
