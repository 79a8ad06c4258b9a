//! Kernel structures whose layout depends on the guest architecture, held
//! here in fields wide enough for either, with their byte layouts.

use crate::byte_codec::{
    le_u16, le_u32, le_u64, push_le_u16, push_le_u32, push_le_u64, read_le_u16, read_le_u32,
    read_le_u64, u16_le, u32_le, u64_le,
};
use crate::kernel_abi::{sock_filter, SupportedArch};
use vstd::prelude::*;

verus! {

/// One link of a task's robust futex list.
#[allow(non_camel_case_types)]
#[derive(Clone, Copy, Debug, PartialEq, Eq, Structural)]
pub struct robust_list {
    pub next: u64,
}

#[allow(non_camel_case_types)]
#[derive(Clone, Copy, Debug, PartialEq, Eq, Structural)]
pub struct robust_list_head {
    pub list: robust_list,
    pub futex_offset: i64,
    pub list_op_pending: u64,
}

/// The argument of a filter installation: how many instructions, and where
/// in the tracee they are.
#[allow(non_camel_case_types)]
#[derive(Clone, Copy, Debug, PartialEq, Eq, Structural)]
pub struct sock_fprog {
    pub len: u16,
    pub filter: u64,
}

#[allow(non_camel_case_types)]
#[derive(Clone, Copy, Debug, PartialEq, Eq, Structural)]
pub struct kernel_sigaction {
    pub k_sa_handler: u64,
    pub sa_flags: u64,
    pub sa_restorer: u64,
    pub sa_mask: u64,
}

#[allow(non_camel_case_types)]
#[derive(Clone, Copy, Debug, PartialEq, Eq, Structural)]
pub struct mmap_args {
    pub addr: u64,
    pub len: u64,
    pub prot: i32,
    pub flags: i32,
    pub fd: i32,
    pub offset: i64,
}

/// Size in bytes of one encoded BPF instruction.
pub const SOCK_FILTER_SIZE: usize = 8;

impl sock_fprog {
    /// Size in bytes of the structure on `arch`.
    pub open spec fn size_spec(arch: SupportedArch) -> usize {
        match arch {
            SupportedArch::X86 => 8,
            SupportedArch::X64 => 16,
        }
    }

    pub fn size_of(arch: SupportedArch) -> (r: usize)
        ensures
            r == Self::size_spec(arch),
    {
        match arch {
            SupportedArch::X86 => 8,
            SupportedArch::X64 => 16,
        }
    }

    /// The structure that `bytes` hold on `arch`: the length in the first
    /// two bytes, the pointer in the last word.
    pub open spec fn decode_spec(arch: SupportedArch, bytes: Seq<u8>) -> sock_fprog {
        match arch {
            SupportedArch::X86 => sock_fprog {
                len: le_u16(bytes),
                filter: le_u32(bytes.skip(4)) as u64,
            },
            SupportedArch::X64 => sock_fprog { len: le_u16(bytes), filter: le_u64(bytes.skip(8)) },
        }
    }

    pub fn decode(arch: SupportedArch, bytes: &Vec<u8>) -> (r: sock_fprog)
        requires
            bytes.len() >= Self::size_spec(arch),
        ensures
            r == Self::decode_spec(arch, bytes@),
    {
        assert(bytes@.skip(0) =~= bytes@);
        let len: u16 = read_le_u16(bytes, 0);
        match arch {
            SupportedArch::X86 => sock_fprog { len, filter: read_le_u32(bytes, 4) as u64 },
            SupportedArch::X64 => sock_fprog { len, filter: read_le_u64(bytes, 8) },
        }
    }

    /// The bytes of the structure on `arch`, padding zero.
    pub open spec fn encode_spec(self, arch: SupportedArch) -> Seq<u8> {
        match arch {
            SupportedArch::X86 => u16_le(self.len) + seq![0u8, 0u8] + u32_le(self.filter as u32),
            SupportedArch::X64 => u16_le(self.len) + seq![0u8, 0u8, 0u8, 0u8, 0u8, 0u8] + u64_le(
                self.filter,
            ),
        }
    }

    /// Whether the pointer fits a word of `arch`.
    pub open spec fn fits(self, arch: SupportedArch) -> bool {
        arch == SupportedArch::X86 ==> self.filter <= u32::MAX
    }

    pub fn encode(&self, arch: SupportedArch) -> (r: Vec<u8>)
        requires
            self.fits(arch),
        ensures
            r@ == self.encode_spec(arch),
            r@.len() == Self::size_spec(arch),
    {
        let mut out: Vec<u8> = Vec::new();
        push_le_u16(&mut out, self.len);
        out.push(0u8);
        out.push(0u8);
        match arch {
            SupportedArch::X86 => {
                push_le_u32(&mut out, self.filter as u32);
            },
            SupportedArch::X64 => {
                out.push(0u8);
                out.push(0u8);
                out.push(0u8);
                out.push(0u8);
                push_le_u64(&mut out, self.filter);
            },
        }
        assert(out@ =~= self.encode_spec(arch));
        out
    }
}

/// Decoding an encoded structure gives it back.
pub proof fn law_sock_fprog_round_trip(p: sock_fprog, arch: SupportedArch)
    requires
        p.fits(arch),
    ensures
        sock_fprog::decode_spec(arch, p.encode_spec(arch)) == p,
{
    let b = p.encode_spec(arch);
    crate::byte_codec::lemma_le_round_trip(p.len, p.filter as u32, p.filter);
    assert(le_u16(b) == le_u16(u16_le(p.len)));
    match arch {
        SupportedArch::X86 => {
            assert(b.skip(4) =~= u32_le(p.filter as u32));
        },
        SupportedArch::X64 => {
            assert(b.skip(8) =~= u64_le(p.filter));
        },
    }
}

/// The instruction that the first eight bytes of `b` hold.
pub open spec fn decode_filter_spec(b: Seq<u8>) -> sock_filter {
    sock_filter { code: le_u16(b), jt: b[2], jf: b[3], k: le_u32(b.skip(4)) }
}

/// The eight bytes of an instruction.
pub open spec fn encode_filter_spec(f: sock_filter) -> Seq<u8> {
    u16_le(f.code) + seq![f.jt, f.jf] + u32_le(f.k)
}

/// The program that `bytes` hold, eight bytes an instruction.
pub open spec fn decode_program_spec(bytes: Seq<u8>, count: nat) -> Seq<sock_filter> {
    Seq::new(count, |i: int| decode_filter_spec(bytes.skip(8 * i)))
}

/// The bytes of a program, eight an instruction.
pub open spec fn encode_program_spec(prog: Seq<sock_filter>) -> Seq<u8>
    decreases prog.len(),
{
    if prog.len() == 0 {
        Seq::empty()
    } else {
        encode_program_spec(prog.drop_last()) + encode_filter_spec(prog.last())
    }
}

/// Decode `count` instructions from `bytes`.
pub fn decode_program(bytes: &Vec<u8>, count: usize) -> (r: Vec<sock_filter>)
    requires
        bytes.len() == 8 * count,
    ensures
        r@ == decode_program_spec(bytes@, count as nat),
{
    let mut out: Vec<sock_filter> = Vec::new();
    let mut i: usize = 0;
    while i < count
        invariant
            i <= count,
            bytes.len() == 8 * count,
            out@ == decode_program_spec(bytes@, i as nat),
        decreases count - i,
    {
        let at: usize = 8 * i;
        let code: u16 = read_le_u16(bytes, at);
        let k: u32 = read_le_u32(bytes, at + 4);
        assert(bytes@.skip(at as int)[2] == bytes@[at + 2]);
        assert(bytes@.skip(at as int)[3] == bytes@[at + 3]);
        assert(bytes@.skip(at as int).skip(4) =~= bytes@.skip(at + 4));
        out.push(sock_filter { code, jt: bytes[at + 2], jf: bytes[at + 3], k });
        i = i + 1;
        assert(out@ =~= decode_program_spec(bytes@, i as nat));
    }
    out
}

/// Encode a program, eight bytes an instruction.
pub fn encode_program(prog: &Vec<sock_filter>) -> (r: Vec<u8>)
    ensures
        r@ == encode_program_spec(prog@),
        r@.len() == 8 * prog@.len(),
{
    let mut out: Vec<u8> = Vec::new();
    let mut i: usize = 0;
    assert(prog@.take(0) =~= Seq::<sock_filter>::empty());
    while i < prog.len()
        invariant
            i <= prog.len(),
            out@ == encode_program_spec(prog@.take(i as int)),
            out@.len() == 8 * i,
        decreases prog.len() - i,
    {
        let f: sock_filter = prog[i];
        push_le_u16(&mut out, f.code);
        out.push(f.jt);
        out.push(f.jf);
        push_le_u32(&mut out, f.k);
        assert(prog@.take(i + 1).drop_last() =~= prog@.take(i as int));
        assert(out@ =~= encode_program_spec(prog@.take(i as int)) + encode_filter_spec(f));
        i = i + 1;
    }
    assert(prog@.take(prog@.len() as int) =~= prog@);
    out
}

} // verus!
