//! Stepping over the iterations of a repeated x86 string instruction in one
//! go.
//!
//! A single step of a `REP`-prefixed string instruction runs one iteration
//! and leaves the instruction pointer where it is. Stepping through a long
//! copy that way takes forever, so the iterations are run together, up to
//! the point where somebody wants to look: before the task reaches a
//! register state that the caller watches for, before it touches memory that
//! is watched, and before the instruction's last iteration.

use crate::address_space::MemoryRange;
use crate::kernel_abi::SupportedArch;
use crate::registers::Registers;
use vstd::prelude::*;

verus! {

/// What came of a fast forward.
#[derive(Clone, Copy, Debug, PartialEq, Eq, Structural)]
pub struct FastForwardStatus {
    /// Whether more than one single step was made.
    pub did_fast_forward: bool,
    /// Whether the fast forward ended before the instruction did.
    pub incomplete_fast_forward: bool,
}

impl Default for FastForwardStatus {
    fn default() -> (r: FastForwardStatus)
        ensures
            r == (FastForwardStatus { did_fast_forward: false, incomplete_fast_forward: false }),
    {
        FastForwardStatus::new()
    }
}

impl FastForwardStatus {
    pub fn new() -> (r: FastForwardStatus)
        ensures
            r == (FastForwardStatus { did_fast_forward: false, incomplete_fast_forward: false }),
    {
        FastForwardStatus { did_fast_forward: false, incomplete_fast_forward: false }
    }
}

/// A string instruction with a repeat prefix.
#[derive(Clone, Copy, Debug, PartialEq, Eq, Structural)]
pub struct DecodedInstruction {
    /// The size in bytes of the element that one iteration handles.
    pub operand_size: usize,
    /// The length in bytes of the instruction with its prefixes.
    pub length: usize,
    /// Whether the instruction sets flags, on which its end then depends.
    pub modifies_flags: bool,
    /// Whether the instruction reads through `si`.
    pub uses_si: bool,
}

/// `b` is a prefix that a string instruction may have on `arch`.
pub open spec fn is_prefix(b: u8, arch: SupportedArch) -> bool {
    b == 0x66 || b == 0x67 || b == 0xf2 || b == 0xf3 || (b == 0x48 && arch == SupportedArch::X64)
}

/// `b` is the opcode of a string instruction: `MOVS`, `CMPS`, `STOS`, `LODS`
/// or `SCAS`.
pub open spec fn is_string_opcode(b: u8) -> bool {
    0xa4 <= b <= 0xa7 || 0xaa <= b <= 0xaf
}

/// How many of the bytes of `code` from `i` on are prefixes.
pub open spec fn prefix_count(code: Seq<u8>, arch: SupportedArch, i: int) -> int
    decreases code.len() - i,
{
    if 0 <= i < code.len() && is_prefix(code[i], arch) {
        1 + prefix_count(code, arch, i + 1)
    } else {
        0
    }
}

/// One of the first `n` bytes of `code` is `b`.
pub open spec fn has_byte(code: Seq<u8>, n: int, b: u8) -> bool {
    exists|j: int| 0 <= j < n && j < code.len() && code[j] == b
}

/// The repeated string instruction that `code` begins with on `arch`, if
/// it begins with one: prefixes, one of which is a repeat prefix, and the
/// opcode of a string instruction.
pub open spec fn decode_spec(code: Seq<u8>, arch: SupportedArch) -> Option<DecodedInstruction> {
    let n = prefix_count(code, arch, 0);
    if n < code.len() && is_string_opcode(code[n]) && (has_byte(code, n, 0xf2) || has_byte(
        code,
        n,
        0xf3,
    )) {
        let op = code[n];
        Some(
            DecodedInstruction {
                operand_size: if op % 2 == 1 {
                    if has_byte(code, n, 0x48) {
                        8
                    } else if has_byte(code, n, 0x66) {
                        2
                    } else {
                        4
                    }
                } else {
                    1
                },
                length: (n + 1) as usize,
                modifies_flags: op == 0xa6 || op == 0xa7 || op == 0xae || op == 0xaf,
                uses_si: 0xa4 <= op <= 0xa7,
            },
        )
    } else {
        None
    }
}

proof fn lemma_prefix_count(code: Seq<u8>, arch: SupportedArch, i: int)
    requires
        0 <= i <= code.len(),
        forall|j: int| 0 <= j < i ==> is_prefix(#[trigger] code[j], arch),
    ensures
        prefix_count(code, arch, 0) == i + prefix_count(code, arch, i),
    decreases i,
{
    if i > 0 {
        lemma_prefix_count(code, arch, i - 1);
    }
}

/// Decode the repeated string instruction that `code` begins with.
pub fn decode_x86_string_instruction(code: &Vec<u8>, arch: SupportedArch) -> (r: Option<
    DecodedInstruction,
>)
    ensures
        r == decode_spec(code@, arch),
{
    let mut found_operand_prefix = false;
    let mut found_rep_prefix = false;
    let mut found_rexw_prefix = false;
    let mut i: usize = 0;
    while i < code.len()
        invariant
            i <= code@.len(),
            forall|j: int| 0 <= j < i ==> is_prefix(#[trigger] code@[j], arch),
            found_operand_prefix == has_byte(code@, i as int, 0x66),
            found_rep_prefix == (has_byte(code@, i as int, 0xf2) || has_byte(
                code@,
                i as int,
                0xf3,
            )),
            found_rexw_prefix == has_byte(code@, i as int, 0x48),
        decreases code@.len() - i,
    {
        let b: u8 = code[i];
        let is_rexw = match arch {
            SupportedArch::X64 => b == 0x48,
            SupportedArch::X86 => false,
        };
        if b == 0x66 || b == 0x67 || b == 0xf2 || b == 0xf3 || is_rexw {
            proof {
                assert forall|x: u8|
                    has_byte(code@, i + 1, x) == (has_byte(code@, i as int, x) || x == b) by {
                    if has_byte(code@, i + 1, x) {
                        let j = choose|j: int| 0 <= j < i + 1 && j < code@.len() && code@[j] == x;
                        if j < i {
                            assert(has_byte(code@, i as int, x));
                        }
                    }
                    if has_byte(code@, i as int, x) {
                        let j = choose|j: int| 0 <= j < i && j < code@.len() && code@[j] == x;
                        assert(0 <= j < i + 1 && code@[j] == x);
                    }
                    if x == b {
                        assert(code@[i as int] == x);
                    }
                }
            }
            if b == 0x66 {
                found_operand_prefix = true;
            } else if b == 0xf2 || b == 0xf3 {
                found_rep_prefix = true;
            } else if b == 0x48 {
                found_rexw_prefix = true;
            }
            i = i + 1;
        } else {
            proof {
                lemma_prefix_count(code@, arch, i as int);
                assert(prefix_count(code@, arch, i as int) == 0);
            }
            let is_string = (0xa4 <= b && b <= 0xa7) || (0xaa <= b && b <= 0xaf);
            if !is_string || !found_rep_prefix {
                return None;
            }
            return Some(
                DecodedInstruction {
                    operand_size: if b % 2 == 1 {
                        if found_rexw_prefix {
                            8
                        } else if found_operand_prefix {
                            2
                        } else {
                            4
                        }
                    } else {
                        1
                    },
                    length: i + 1,
                    modifies_flags: b == 0xa6 || b == 0xa7 || b == 0xae || b == 0xaf,
                    uses_si: 0xa4 <= b && b <= 0xa7,
                },
            );
        }
    }
    proof {
        lemma_prefix_count(code@, arch, i as int);
    }
    None
}

/// Whether the instruction that `code` begins with is a repeated string
/// instruction. `code` holds the bytes at the task's instruction pointer.
pub fn at_x86_string_instruction(code: &Vec<u8>, arch: SupportedArch) -> (r: bool)
    ensures
        r == decode_spec(code@, arch) is Some,
{
    decode_x86_string_instruction(code, arch).is_some()
}

/// The last `k` bytes of `bytes`.
pub open spec fn tail(bytes: Seq<u8>, k: int) -> Seq<u8> {
    bytes.subrange(bytes.len() - k, bytes.len() as int)
}

/// `bytes` are a repeated string instruction, no more and no less.
pub open spec fn is_whole_instruction(bytes: Seq<u8>, arch: SupportedArch) -> bool {
    decode_spec(bytes, arch) is Some && decode_spec(bytes, arch)->Some_0.length == bytes.len()
}

/// Some run of bytes that ends where `before` ends is a repeated string
/// instruction.
pub open spec fn ends_with_string_instruction(before: Seq<u8>, arch: SupportedArch) -> bool {
    exists|k: int| 0 < k <= before.len() && is_whole_instruction(#[trigger] tail(before, k), arch)
}

/// Whether the instruction at the task's instruction pointer, or the one
/// right before it, could be a repeated string instruction. `code` holds the
/// bytes at the instruction pointer and `before` the bytes that lead up to
/// it. The answer may be yes for bytes that only look like one.
pub fn maybe_at_or_after_x86_string_instruction(
    code: &Vec<u8>,
    before: &Vec<u8>,
    arch: SupportedArch,
) -> (r: bool)
    ensures
        r == (decode_spec(code@, arch) is Some || ends_with_string_instruction(before@, arch)),
{
    if at_x86_string_instruction(code, arch) {
        return true;
    }
    let n: usize = before.len();
    let mut j: usize = 0;
    while j < n
        invariant
            j <= n,
            n == before@.len(),
            forall|k: int| 0 < k <= j ==> !is_whole_instruction(#[trigger] tail(before@, k), arch),
        decreases n - j,
    {
        let k: usize = j + 1;
        let last = crate::task_syscall_state::copy_range(before, n - k, k);
        assert(last@ == tail(before@, k as int));
        match decode_x86_string_instruction(&last, arch) {
            Some(d) => {
                if d.length == k {
                    return true;
                }
            },
            None => {},
        }
        j = j + 1;
    }
    false
}

/// The direction flag of the flags register.
pub const DIRECTION_FLAG: u64 = 0x400;

/// How many values a register of `arch` can hold.
pub open spec fn word_of(arch: SupportedArch) -> int {
    match arch {
        SupportedArch::X86 => 0x1_0000_0000int,
        SupportedArch::X64 => 0x1_0000_0000_0000_0000int,
    }
}

/// The element size is one that a string instruction has, and the pointers
/// hold what a register of the task can hold.
pub open spec fn can_iterate(regs: Registers, insn: DecodedInstruction) -> bool {
    &&& insn.operand_size == 1 || insn.operand_size == 2 || insn.operand_size == 4
        || insn.operand_size == 8
    &&& regs.di < word_of(regs.arch)
    &&& regs.si < word_of(regs.arch)
}

/// The registers after `k` iterations of the string instruction `insn`
/// that the task is at: the count is down by `k`, and the pointers that the
/// instruction uses have moved by `k` elements, up or down as the direction
/// flag says.
pub open spec fn iterated(regs: Registers, insn: DecodedInstruction, down: bool, k: int)
    -> Registers {
    let step = if down {
        -(insn.operand_size as int)
    } else {
        insn.operand_size as int
    };
    let word = word_of(regs.arch);
    Registers {
        cx: (regs.cx - k) as u64,
        di: ((regs.di + step * k) % word) as u64,
        si: if insn.uses_si {
            ((regs.si + step * k) % word) as u64
        } else {
            regs.si
        },
        ..regs
    }
}

/// The task, run on from `regs`, is in one of `states` after `k`
/// iterations.
pub open spec fn reaches_state(
    regs: Registers,
    insn: DecodedInstruction,
    down: bool,
    states: Seq<Registers>,
    k: int,
) -> bool {
    exists|s: int| 0 <= s < states.len() && #[trigger] states[s] == iterated(regs, insn, down, k)
}

/// The `len` bytes at `addr` and the range `w` have a byte in common.
pub open spec fn in_watched_range(w: MemoryRange, addr: int, len: int) -> bool {
    w.start < addr + len && addr < w.end
}

/// Iteration `k` of the instruction, counted from 1, touches memory that
/// one of `watches` covers: the element that `di` points to before the
/// iteration, or the one that `si` points to if the instruction reads through
/// it.
pub open spec fn touches_watch(
    regs: Registers,
    insn: DecodedInstruction,
    down: bool,
    watches: Seq<MemoryRange>,
    k: int,
) -> bool {
    let before = iterated(regs, insn, down, k - 1);
    exists|w: int|
        0 <= w < watches.len() && touches(#[trigger] watches[w], before, insn)
}

/// An iteration made with the registers `before` touches a byte of `w`.
pub open spec fn touches(w: MemoryRange, before: Registers, insn: DecodedInstruction) -> bool {
    in_watched_range(w, before.di as int, insn.operand_size as int) || (insn.uses_si
        && in_watched_range(w, before.si as int, insn.operand_size as int))
}

/// Somebody wants to look at iteration `k`: it touches watched memory, or
/// the task is in one of `states` after it.
pub open spec fn is_looked_at(
    regs: Registers,
    insn: DecodedInstruction,
    down: bool,
    states: Seq<Registers>,
    watches: Seq<MemoryRange>,
    k: int,
) -> bool {
    reaches_state(regs, insn, down, states, k) || touches_watch(regs, insn, down, watches, k)
}

/// `count` is how many iterations can be run in one go: all that are left
/// but the last, or fewer, up to the iteration before one that is looked at.
/// A run of more than one iteration holds no iteration that is looked at.
pub open spec fn is_fast_forward_count(
    regs: Registers,
    insn: DecodedInstruction,
    down: bool,
    states: Seq<Registers>,
    watches: Seq<MemoryRange>,
    count: int,
) -> bool {
    &&& 1 <= count <= regs.cx - 1
    &&& count > 1 ==> forall|k: int|
        1 <= k <= count ==> !#[trigger] is_looked_at(regs, insn, down, states, watches, k)
    &&& count == regs.cx - 1 || is_looked_at(regs, insn, down, states, watches, count + 1) || (
    count == 1 && is_looked_at(regs, insn, down, states, watches, 1))
}

/// What a fast forward through the instruction at the task's instruction
/// pointer is to do.
#[derive(Clone, Copy, Debug, PartialEq, Eq, Structural)]
pub struct FastForwardPlan {
    /// How many iterations to run in one go; 1 for a plain single step.
    pub iterations: u64,
    pub status: FastForwardStatus,
}

/// Plan a fast forward of a task with the registers `regs`, at the
/// instruction `insn` (`None` if it is at no repeated string instruction)
/// that must not pass any of `states`, nor an access to any of `watches`,
/// the ranges of memory that are watched, nor a breakpoint, of which
/// `breakpoints` holds the addresses.
///
/// A task that is at no repeated string instruction, or at a breakpoint, or
/// at an instruction whose end depends on flags or whose count is 2 or less,
/// makes a plain single step. Else it runs iterations in one go until the
/// next single step would be the last iteration, or one that is looked at,
/// or the one after it would.
pub fn fast_forward_through_instruction(
    regs: &Registers,
    insn: Option<DecodedInstruction>,
    states: &Vec<Registers>,
    watches: &Vec<MemoryRange>,
    breakpoints: &Vec<u64>,
) -> (plan: FastForwardPlan)
    requires
        insn is Some ==> can_iterate(*regs, insn->Some_0),
    ensures
        plan.status.did_fast_forward == (plan.iterations > 1),
        match insn {
            None => plan.iterations == 1 && !plan.status.incomplete_fast_forward,
            Some(d) => if d.modifies_flags || regs.cx <= 2 || breakpoints@.contains(regs.ip) {
                plan.iterations == 1 && !plan.status.incomplete_fast_forward
            } else {
                &&& is_fast_forward_count(
                    *regs,
                    d,
                    regs.flags & DIRECTION_FLAG != 0,
                    states@,
                    watches@,
                    plan.iterations as int,
                )
                &&& plan.status.incomplete_fast_forward == (1 < plan.iterations < regs.cx - 1)
            },
        },
{
    let plain = FastForwardPlan { iterations: 1, status: FastForwardStatus::new() };
    let d = match insn {
        Some(d) => d,
        None => {
            return plain;
        },
    };
    if d.modifies_flags || regs.cx <= 2 || is_address_of(regs.ip, breakpoints) {
        return plain;
    }
    let down: bool = (regs.flags & DIRECTION_FLAG) != 0;
    let limit: u64 = regs.cx - 1;
    let mut count: u64 = 1;
    // The states after `count - 1`, `count` and `count + 1` iterations, kept
    // up as `count` grows.
    proof {
        lemma_iterated_none(*regs, d, down);
    }
    let mut before: Registers = *regs;
    let mut at: Registers = advance_one(regs, regs, &d, down, 0);
    let mut next: Registers = advance_one(regs, &at, &d, down, 1);
    while count < limit
        invariant
            1 <= count <= limit,
            limit == regs.cx - 1,
            before == iterated(*regs, d, down, count - 1),
            at == iterated(*regs, d, down, count as int),
            next == iterated(*regs, d, down, count + 1),
            can_iterate(*regs, d),
            insn == Some(d),
            !d.modifies_flags,
            regs.cx > 2,
            !breakpoints@.contains(regs.ip),
            down == (regs.flags & DIRECTION_FLAG != 0),
            plain == (FastForwardPlan {
                iterations: 1,
                status: FastForwardStatus {
                    did_fast_forward: false,
                    incomplete_fast_forward: false,
                },
            }),
            count > 1 ==> forall|k: int|
                1 <= k <= count ==> !#[trigger] is_looked_at(
                    *regs,
                    d,
                    down,
                    states@,
                    watches@,
                    k,
                ),
        decreases limit - count,
    {
        let now = is_one_of(&at, states) || touches_any(&before, &d, watches);
        let then = is_one_of(&next, states) || touches_any(&at, &d, watches);
        proof {
            assert(now == is_looked_at(*regs, d, down, states@, watches@, count as int));
            assert(then == is_looked_at(*regs, d, down, states@, watches@, count + 1));
        }
        if now || then {
            if count == 1 {
                return plain;
            }
            return FastForwardPlan {
                iterations: count,
                status: FastForwardStatus {
                    did_fast_forward: true,
                    incomplete_fast_forward: true,
                },
            };
        }
        before = at;
        at = next;
        next = advance_one(regs, &at, &d, down, count + 1);
        count = count + 1;
    }
    FastForwardPlan {
        iterations: count,
        status: FastForwardStatus { did_fast_forward: true, incomplete_fast_forward: false },
    }
}

/// Whether `addr` is one of `addrs`.
fn is_address_of(addr: u64, addrs: &Vec<u64>) -> (r: bool)
    ensures
        r == addrs@.contains(addr),
{
    let mut i: usize = 0;
    while i < addrs.len()
        invariant
            i <= addrs@.len(),
            forall|k: int| 0 <= k < i ==> addrs@[k] != addr,
        decreases addrs@.len() - i,
    {
        if addrs[i] == addr {
            return true;
        }
        i = i + 1;
    }
    false
}

/// Whether the `len` bytes at `addr` and the range `w` have a byte in
/// common.
fn is_in_watched_range(w: &MemoryRange, addr: u64, len: usize) -> (r: bool)
    requires
        len <= 8,
    ensures
        r == in_watched_range(*w, addr as int, len as int),
{
    let reaches = if addr <= u64::MAX - len as u64 {
        w.start < addr + len as u64
    } else {
        true
    };
    reaches && addr < w.end
}

/// Whether an iteration made with the registers `before` touches a byte of
/// one of `watches`.
fn touches_any(before: &Registers, insn: &DecodedInstruction, watches: &Vec<MemoryRange>) -> (r:
    bool)
    requires
        insn.operand_size <= 8,
    ensures
        r == exists|w: int| 0 <= w < watches@.len() && touches(#[trigger] watches@[w], *before, *insn),
{
    let mut i: usize = 0;
    while i < watches.len()
        invariant
            i <= watches@.len(),
            insn.operand_size <= 8,
            forall|w: int| 0 <= w < i ==> !touches(#[trigger] watches@[w], *before, *insn),
        decreases watches@.len() - i,
    {
        let w = &watches[i];
        if is_in_watched_range(w, before.di, insn.operand_size) || (insn.uses_si
            && is_in_watched_range(w, before.si, insn.operand_size)) {
            assert(touches(watches@[i as int], *before, *insn));
            return true;
        }
        i = i + 1;
    }
    false
}

/// Whether `regs` is one of `states`.
fn is_one_of(regs: &Registers, states: &Vec<Registers>) -> (r: bool)
    ensures
        r == exists|s: int| 0 <= s < states@.len() && #[trigger] states@[s] == *regs,
{
    let mut i: usize = 0;
    while i < states.len()
        invariant
            i <= states@.len(),
            forall|s: int| 0 <= s < i ==> #[trigger] states@[s] != *regs,
        decreases states@.len() - i,
    {
        if states[i] == *regs {
            return true;
        }
        i = i + 1;
    }
    false
}

/// After no iteration the registers are as they were.
proof fn lemma_iterated_none(regs: Registers, insn: DecodedInstruction, down: bool)
    requires
        can_iterate(regs, insn),
    ensures
        iterated(regs, insn, down, 0) == regs,
{
    let step = if down {
        -(insn.operand_size as int)
    } else {
        insn.operand_size as int
    };
    assert(step * 0 == 0);
}

/// `pointer` moved by one element of `size` bytes, up or down, within a
/// word of `arch`.
fn move_pointer(pointer: u64, size: usize, down: bool, arch: SupportedArch) -> (r: u64)
    requires
        size == 1 || size == 2 || size == 4 || size == 8,
    ensures
        r == (match arch {
            SupportedArch::X86 => (pointer + (if down {
                -(size as int)
            } else {
                size as int
            })) % 0x1_0000_0000int,
            SupportedArch::X64 => (pointer + (if down {
                -(size as int)
            } else {
                size as int
            })) % 0x1_0000_0000_0000_0000int,
        }),
{
    let moved: u64 = if down {
        pointer.wrapping_sub(size as u64)
    } else {
        pointer.wrapping_add(size as u64)
    };
    match arch {
        SupportedArch::X86 => moved % crate::registers::WORD32,
        SupportedArch::X64 => moved,
    }
}

/// The registers one iteration after `at`, which are the registers `k`
/// iterations after `regs`.
fn advance_one(
    regs: &Registers,
    at: &Registers,
    insn: &DecodedInstruction,
    down: bool,
    k: u64,
) -> (r: Registers)
    requires
        *at == iterated(*regs, *insn, down, k as int),
        k < regs.cx,
        can_iterate(*regs, *insn),
    ensures
        r == iterated(*regs, *insn, down, k + 1),
{
    let mut r: Registers = *at;
    r.cx = at.cx - 1;
    r.di = move_pointer(at.di, insn.operand_size, down, regs.arch);
    if insn.uses_si {
        r.si = move_pointer(at.si, insn.operand_size, down, regs.arch);
    }
    proof {
        lemma_iterated_step(*regs, *insn, down, k as int);
    }
    r
}

/// One more iteration moves each pointer by one element.
proof fn lemma_iterated_step(regs: Registers, insn: DecodedInstruction, down: bool, k: int)
    requires
        0 <= k < regs.cx,
    ensures
        ({
            let a = iterated(regs, insn, down, k);
            let b = iterated(regs, insn, down, k + 1);
            let step = if down {
                -(insn.operand_size as int)
            } else {
                insn.operand_size as int
            };
            let word = word_of(regs.arch);
            &&& b.cx == a.cx - 1
            &&& b.di == (a.di + step) % word
            &&& insn.uses_si ==> b.si == (a.si + step) % word
        }),
{
    let step = if down {
        -(insn.operand_size as int)
    } else {
        insn.operand_size as int
    };
    let word = word_of(regs.arch);
    assert(step * (k + 1) == step * k + step) by (nonlinear_arith);
    vstd::arithmetic::div_mod::lemma_add_mod_noop((regs.di + step * k), step, word);
    vstd::arithmetic::div_mod::lemma_add_mod_noop((regs.si + step * k), step, word);
    vstd::arithmetic::div_mod::lemma_mod_twice(regs.di + step * k, word);
    vstd::arithmetic::div_mod::lemma_mod_twice(regs.si + step * k, word);
    vstd::arithmetic::div_mod::lemma_add_mod_noop(((regs.di + step * k) % word), step, word);
    vstd::arithmetic::div_mod::lemma_add_mod_noop(((regs.si + step * k) % word), step, word);
}

} // verus!
