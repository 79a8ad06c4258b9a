//! Classic BPF as seccomp runs it: what a filter program returns for a
//! syscall, and the rule that lets a given call site through.

use crate::kernel_abi::{
    sock_filter, BPF_A, BPF_ABS, BPF_ALU, BPF_IMM, BPF_JA, BPF_JEQ, BPF_JGE, BPF_JGT, BPF_JMP,
    BPF_JSET, BPF_K, BPF_LD, BPF_LDX, BPF_LEN, BPF_MEM, BPF_MISC, BPF_RET, BPF_ST, BPF_STX, BPF_W,
    BPF_X, SECCOMP_DATA_IP_OFFSET, SECCOMP_RET_ALLOW,
};
use vstd::prelude::*;

verus! {

/// The class bits of an instruction code.
pub open spec fn bpf_class(code: u16) -> u32 {
    (code as u32) & 0x07
}

/// The field of a `RET` that says where the verdict comes from.
pub open spec fn bpf_rval(code: u16) -> u32 {
    (code as u32) & 0x18
}

/// The size field of a load.
pub open spec fn bpf_size(code: u16) -> u32 {
    (code as u32) & 0x18
}

/// The addressing mode of a load or store.
pub open spec fn bpf_mode(code: u16) -> u32 {
    (code as u32) & 0xe0
}

/// The operation of an ALU or jump instruction.
pub open spec fn bpf_op(code: u16) -> u32 {
    (code as u32) & 0xf0
}

/// Whether an ALU or jump instruction takes its operand from `X`.
pub open spec fn bpf_src(code: u16) -> u32 {
    (code as u32) & 0x08
}

/// The operation of a `MISC` instruction.
pub open spec fn bpf_miscop(code: u16) -> u32 {
    (code as u32) & 0xf8
}

/// The machine state of a running filter: accumulator, index register and
/// sixteen scratch words.
pub struct BpfState {
    pub a: u32,
    pub x: u32,
    pub mem: Seq<u32>,
}

/// The state in which the kernel starts a filter.
pub open spec fn bpf_initial_state() -> BpfState {
    BpfState { a: 0, x: 0, mem: Seq::new(16, |i: int| 0u32) }
}

/// What one instruction does.
pub enum BpfStep {
    /// Go on with the given state, skipping `skip` instructions.
    Next { state: BpfState, skip: nat },
    /// The filter ends with this verdict.
    Ret { verdict: u32 },
    /// The instruction is one that seccomp does not run.
    Fault,
}

/// `v` reduced to 32 bits.
pub open spec fn wrap32(v: int) -> u32 {
    (v % 0x1_0000_0000) as u32
}

/// The value a load instruction fetches, if seccomp admits the load.
/// `data` is the `seccomp_data` record as sixteen 32-bit words.
pub open spec fn bpf_load_value(insn: sock_filter, st: BpfState, data: Seq<u32>) -> Option<u32> {
    let mode = bpf_mode(insn.code);
    if bpf_size(insn.code) != BPF_W {
        None
    } else if mode == BPF_IMM {
        Some(insn.k)
    } else if mode == BPF_ABS {
        if insn.k % 4 == 0 && insn.k < 64 {
            Some(data[(insn.k / 4) as int])
        } else {
            None
        }
    } else if mode == BPF_MEM {
        if insn.k < 16 {
            Some(st.mem[insn.k as int])
        } else {
            None
        }
    } else if mode == BPF_LEN {
        Some(64u32)
    } else {
        None
    }
}

/// The result of an ALU operation on `a` and `b`, if it is defined.
pub open spec fn bpf_alu_value(op: u32, a: u32, b: u32) -> Option<u32> {
    if op == 0x00 {
        Some(wrap32(a + b))
    } else if op == 0x10 {
        Some(wrap32(a - b))
    } else if op == 0x20 {
        Some(wrap32(a * b))
    } else if op == 0x30 {
        if b == 0 {
            None
        } else {
            Some(a / b)
        }
    } else if op == 0x40 {
        Some(a | b)
    } else if op == 0x50 {
        Some(a & b)
    } else if op == 0x60 {
        if b < 32 {
            Some(a << b)
        } else {
            None
        }
    } else if op == 0x70 {
        if b < 32 {
            Some(a >> b)
        } else {
            None
        }
    } else if op == 0x80 {
        Some(wrap32(-a))
    } else if op == 0x90 {
        if b == 0 {
            None
        } else {
            Some(a % b)
        }
    } else if op == 0xa0 {
        Some(a ^ b)
    } else {
        None
    }
}

/// Whether a conditional jump is taken, if the condition is one BPF has.
pub open spec fn bpf_jump_taken(op: u32, a: u32, b: u32) -> Option<bool> {
    if op == BPF_JEQ {
        Some(a == b)
    } else if op == BPF_JGT {
        Some(a > b)
    } else if op == BPF_JGE {
        Some(a >= b)
    } else if op == BPF_JSET {
        Some(a & b != 0)
    } else {
        None
    }
}

/// What `insn` does in state `st` on the record `data`.
pub open spec fn bpf_step(insn: sock_filter, st: BpfState, data: Seq<u32>) -> BpfStep {
    let class = bpf_class(insn.code);
    let operand = if bpf_src(insn.code) == BPF_X {
        st.x
    } else {
        insn.k
    };
    if class == BPF_RET {
        if bpf_rval(insn.code) == BPF_K {
            BpfStep::Ret { verdict: insn.k }
        } else if bpf_rval(insn.code) == BPF_A {
            BpfStep::Ret { verdict: st.a }
        } else {
            BpfStep::Fault
        }
    } else if class == BPF_LD {
        match bpf_load_value(insn, st, data) {
            Some(v) => BpfStep::Next { state: BpfState { a: v, ..st }, skip: 0 },
            None => BpfStep::Fault,
        }
    } else if class == BPF_LDX {
        if bpf_mode(insn.code) == BPF_ABS {
            BpfStep::Fault
        } else {
            match bpf_load_value(insn, st, data) {
                Some(v) => BpfStep::Next { state: BpfState { x: v, ..st }, skip: 0 },
                None => BpfStep::Fault,
            }
        }
    } else if class == BPF_ST {
        if insn.k < 16 {
            BpfStep::Next {
                state: BpfState { mem: st.mem.update(insn.k as int, st.a), ..st },
                skip: 0,
            }
        } else {
            BpfStep::Fault
        }
    } else if class == BPF_STX {
        if insn.k < 16 {
            BpfStep::Next {
                state: BpfState { mem: st.mem.update(insn.k as int, st.x), ..st },
                skip: 0,
            }
        } else {
            BpfStep::Fault
        }
    } else if class == BPF_ALU {
        match bpf_alu_value(bpf_op(insn.code), st.a, operand) {
            Some(v) => BpfStep::Next { state: BpfState { a: v, ..st }, skip: 0 },
            None => BpfStep::Fault,
        }
    } else if class == BPF_JMP {
        if bpf_op(insn.code) == BPF_JA {
            BpfStep::Next { state: st, skip: insn.k as nat }
        } else {
            match bpf_jump_taken(bpf_op(insn.code), st.a, operand) {
                Some(taken) => BpfStep::Next {
                    state: st,
                    skip: if taken {
                        insn.jt as nat
                    } else {
                        insn.jf as nat
                    },
                },
                None => BpfStep::Fault,
            }
        }
    } else if class == BPF_MISC {
        if bpf_miscop(insn.code) == 0x00 {
            BpfStep::Next { state: BpfState { x: st.a, ..st }, skip: 0 }
        } else if bpf_miscop(insn.code) == 0x80 {
            BpfStep::Next { state: BpfState { a: st.x, ..st }, skip: 0 }
        } else {
            BpfStep::Fault
        }
    } else {
        BpfStep::Fault
    }
}

/// The verdict of `prog` on `data` when started at instruction `pc` in state
/// `st`; `None` if it runs off its end or meets an instruction seccomp does
/// not run.
pub open spec fn bpf_run_from(prog: Seq<sock_filter>, data: Seq<u32>, pc: nat, st: BpfState)
    -> Option<u32>
    decreases prog.len() - pc,
{
    if pc >= prog.len() {
        None
    } else {
        match bpf_step(prog[pc as int], st, data) {
            BpfStep::Ret { verdict } => Some(verdict),
            BpfStep::Fault => None,
            BpfStep::Next { state, skip } => if pc + 1 + skip < prog.len() {
                bpf_run_from(prog, data, pc + 1 + skip, state)
            } else {
                None
            },
        }
    }
}

/// The verdict of `prog` on `data`, run as the kernel runs it.
pub open spec fn bpf_run(prog: Seq<sock_filter>, data: Seq<u32>) -> Option<u32> {
    bpf_run_from(prog, data, 0, bpf_initial_state())
}

/// The low 32 bits of the instruction pointer in a `seccomp_data` record.
pub open spec fn seccomp_data_ip_low(data: Seq<u32>) -> u32 {
    data[2]
}

/// The three instructions that allow every syscall made from call site `ip`.
pub open spec fn callsite_rule(ip: u32) -> Seq<sock_filter> {
    seq![
        sock_filter { code: 0x20, jt: 0, jf: 0, k: SECCOMP_DATA_IP_OFFSET },
        sock_filter { code: 0x15, jt: 0, jf: 1, k: ip },
        sock_filter { code: 0x06, jt: 0, jf: 0, k: SECCOMP_RET_ALLOW },
    ]
}

/// The rules for all of `ips`, in order.
pub open spec fn callsite_rules(ips: Seq<u32>) -> Seq<sock_filter>
    decreases ips.len(),
{
    if ips.len() == 0 {
        Seq::empty()
    } else {
        callsite_rules(ips.drop_last()) + callsite_rule(ips.last())
    }
}

/// A seccomp filter program under construction.
pub struct SeccompFilter {
    pub filters: Vec<sock_filter>,
}

impl SeccompFilter {
    pub fn new() -> (f: SeccompFilter)
        ensures
            f.filters@.len() == 0,
    {
        SeccompFilter { filters: Vec::new() }
    }

    /// Append the rule that allows every syscall made from call site `ip`.
    pub fn allow_syscalls_from_callsite(&mut self, ip: u32)
        ensures
            final(self).filters@ == old(self).filters@ + callsite_rule(ip),
    {
        self.filters.push(sock_filter { code: 0x20, jt: 0, jf: 0, k: SECCOMP_DATA_IP_OFFSET });
        self.filters.push(sock_filter { code: 0x15, jt: 0, jf: 1, k: ip });
        self.filters.push(sock_filter { code: 0x06, jt: 0, jf: 0, k: SECCOMP_RET_ALLOW });
        assert(self.filters@ =~= old(self).filters@ + callsite_rule(ip));
    }
}

/// The three instructions of a call-site rule decode as a load of the
/// instruction pointer's low word, an equality test and a constant return.
pub proof fn lemma_callsite_rule_codes()
    ensures
        bpf_class(0x20) == BPF_LD,
        bpf_size(0x20) == BPF_W,
        bpf_mode(0x20) == BPF_ABS,
        bpf_class(0x15) == BPF_JMP,
        bpf_op(0x15) == BPF_JEQ,
        bpf_src(0x15) == BPF_K,
        bpf_class(0x06) == BPF_RET,
        bpf_rval(0x06) == BPF_K,
{
    assert((0x20u16 as u32) & 0x07 == 0) by (bit_vector);
    assert((0x20u16 as u32) & 0x18 == 0) by (bit_vector);
    assert((0x20u16 as u32) & 0xe0 == 0x20) by (bit_vector);
    assert((0x15u16 as u32) & 0x07 == 5) by (bit_vector);
    assert((0x15u16 as u32) & 0xf0 == 0x10) by (bit_vector);
    assert((0x15u16 as u32) & 0x08 == 0) by (bit_vector);
    assert((0x06u16 as u32) & 0x07 == 6) by (bit_vector);
    assert((0x06u16 as u32) & 0x18 == 0) by (bit_vector);
}

/// A program placed behind a prefix runs as it does alone: jumps are
/// relative, so the prefix only shifts the program counter.
pub proof fn lemma_run_behind_prefix(
    prefix: Seq<sock_filter>,
    prog: Seq<sock_filter>,
    data: Seq<u32>,
    pc: nat,
    st: BpfState,
)
    ensures
        bpf_run_from(prefix + prog, data, prefix.len() + pc, st) == bpf_run_from(
            prog,
            data,
            pc,
            st,
        ),
    decreases prog.len() - pc,
{
    let whole = prefix + prog;
    if pc < prog.len() {
        assert(whole[(prefix.len() + pc) as int] == prog[pc as int]);
        match bpf_step(prog[pc as int], st, data) {
            BpfStep::Next { state, skip } => {
                if pc + 1 + skip < prog.len() {
                    lemma_run_behind_prefix(prefix, prog, data, pc + 1 + skip, state);
                }
            },
            _ => {},
        }
    }
}

/// What the call-site rules do in front of a program: a syscall made from
/// one of the call sites is allowed; any other falls through to the program,
/// with the accumulator holding the instruction pointer's low word.
pub proof fn lemma_callsite_rules_run(
    ips: Seq<u32>,
    prog: Seq<sock_filter>,
    data: Seq<u32>,
    st: BpfState,
)
    requires
        data.len() == 16,
    ensures
        callsite_rules(ips).len() == 3 * ips.len(),
        ips.contains(seccomp_data_ip_low(data)) ==> bpf_run_from(
            callsite_rules(ips) + prog,
            data,
            0,
            st,
        ) == Some(SECCOMP_RET_ALLOW),
        !ips.contains(seccomp_data_ip_low(data)) && ips.len() > 0 ==> bpf_run_from(
            callsite_rules(ips) + prog,
            data,
            0,
            st,
        ) == bpf_run_from(prog, data, 0, BpfState { a: seccomp_data_ip_low(data), ..st }),
        ips.len() == 0 ==> bpf_run_from(callsite_rules(ips) + prog, data, 0, st) == bpf_run_from(
            prog,
            data,
            0,
            st,
        ),
    decreases ips.len(),
{
    let ip = seccomp_data_ip_low(data);
    if ips.len() == 0 {
        assert(callsite_rules(ips) + prog =~= prog);
    } else {
        let head = ips.drop_last();
        let last = ips.last();
        let rule = callsite_rule(last);
        let rest = rule + prog;
        let whole = callsite_rules(ips) + prog;
        assert(whole =~= callsite_rules(head) + rest);
        lemma_callsite_rules_run(head, rest, data, st);
        lemma_callsite_rule_codes();
        assert(ips.contains(ip) <==> (head.contains(ip) || last == ip)) by {
            if ips.contains(ip) {
                let j = choose|j: int| 0 <= j < ips.len() && ips[j] == ip;
                if j < ips.len() - 1 {
                    assert(head[j] == ip);
                }
            }
            if head.contains(ip) {
                let j = choose|j: int| 0 <= j < head.len() && head[j] == ip;
                assert(ips[j] == ip);
            }
            if last == ip {
                assert(ips[ips.len() - 1] == ip);
            }
        }
        // What the last rule does in front of `prog`, from any state.
        assert forall|s: BpfState|
            #[trigger] bpf_run_from(rest, data, 0, s) == if last == ip {
                Some(SECCOMP_RET_ALLOW)
            } else {
                bpf_run_from(prog, data, 0, BpfState { a: ip, ..s })
            } by {
            let s1 = BpfState { a: ip, ..s };
            assert(rest[0] == rule[0]);
            assert(rest[1] == rule[1]);
            assert(rest[2] == rule[2]);
            assert(8u32 % 4 == 0 && 8u32 / 4 == 2);
            assert(bpf_load_value(rest[0], s, data) == Some(ip));
            assert(bpf_step(rest[0], s, data) == (BpfStep::Next { state: s1, skip: 0 }));
            assert(bpf_run_from(rest, data, 0, s) == bpf_run_from(rest, data, 1, s1));
            assert(bpf_jump_taken(BPF_JEQ, ip, last) == Some(ip == last));
            if last == ip {
                assert(bpf_step(rest[1], s1, data) == (BpfStep::Next { state: s1, skip: 0 }));
                assert(bpf_run_from(rest, data, 1, s1) == bpf_run_from(rest, data, 2, s1));
                assert(bpf_step(rest[2], s1, data) == (BpfStep::Ret {
                    verdict: SECCOMP_RET_ALLOW,
                }));
                assert(bpf_run_from(rest, data, 2, s1) == Some(SECCOMP_RET_ALLOW));
            } else {
                assert(bpf_step(rest[1], s1, data) == (BpfStep::Next { state: s1, skip: 1 }));
                assert(bpf_run_from(rest, data, 1, s1) == bpf_run_from(rest, data, 3, s1));
                lemma_run_behind_prefix(rule, prog, data, 0, s1);
            }
        }
        if head.len() == 0 {
            assert(bpf_run_from(rest, data, 0, st) == bpf_run_from(whole, data, 0, st));
        } else if !head.contains(ip) {
            let s0 = BpfState { a: ip, ..st };
            assert(bpf_run_from(whole, data, 0, st) == bpf_run_from(rest, data, 0, s0));
            assert(BpfState { a: ip, ..s0 } == s0);
        }
    }
}

/// What one instruction did, for the interpreter.
#[derive(Clone, Copy, Debug, PartialEq, Eq, Structural)]
pub enum StepOutcome {
    Next { skip: usize },
    Ret { verdict: u32 },
    Fault,
}

/// The machine state of the interpreter.
pub struct BpfMachine {
    pub a: u32,
    pub x: u32,
    pub mem: Vec<u32>,
}

impl View for BpfMachine {
    type V = BpfState;

    open spec fn view(&self) -> BpfState {
        BpfState { a: self.a, x: self.x, mem: self.mem@ }
    }
}

/// The value that an ALU operation gives, if it is defined.
pub fn alu_value(op: u32, a: u32, b: u32) -> (r: Option<u32>)
    ensures
        r == bpf_alu_value(op, a, b),
{
    if op == 0x00 {
        Some(((a as u64 + b as u64) % 0x1_0000_0000) as u32)
    } else if op == 0x10 {
        Some(((a as u64 + 0x1_0000_0000 - b as u64) % 0x1_0000_0000) as u32)
    } else if op == 0x20 {
        assert(a * b <= 0xffff_ffff * 0xffff_ffff) by (nonlinear_arith)
            requires
                0 <= a <= 0xffff_ffff,
                0 <= b <= 0xffff_ffff,
        ;
        Some(((a as u64 * b as u64) % 0x1_0000_0000) as u32)
    } else if op == 0x30 {
        if b == 0 {
            None
        } else {
            Some(a / b)
        }
    } else if op == 0x40 {
        Some(a | b)
    } else if op == 0x50 {
        Some(a & b)
    } else if op == 0x60 {
        if b < 32 {
            Some(a << b)
        } else {
            None
        }
    } else if op == 0x70 {
        if b < 32 {
            Some(a >> b)
        } else {
            None
        }
    } else if op == 0x80 {
        Some(((0x1_0000_0000 - a as u64) % 0x1_0000_0000) as u32)
    } else if op == 0x90 {
        if b == 0 {
            None
        } else {
            Some(a % b)
        }
    } else if op == 0xa0 {
        Some(a ^ b)
    } else {
        None
    }
}

/// The value that a load fetches, if seccomp admits the load.
pub fn load_value(insn: &sock_filter, m: &BpfMachine, data: &Vec<u32>) -> (r: Option<u32>)
    requires
        data@.len() == 16,
        m.mem@.len() == 16,
    ensures
        r == bpf_load_value(*insn, m@, data@),
{
    let code: u32 = insn.code as u32;
    let mode: u32 = code & 0xe0;
    if code & 0x18 != BPF_W {
        None
    } else if mode == BPF_IMM {
        Some(insn.k)
    } else if mode == BPF_ABS {
        if insn.k % 4 == 0 && insn.k < 64 {
            Some(data[(insn.k / 4) as usize])
        } else {
            None
        }
    } else if mode == BPF_MEM {
        if insn.k < 16 {
            Some(m.mem[insn.k as usize])
        } else {
            None
        }
    } else if mode == BPF_LEN {
        Some(64)
    } else {
        None
    }
}

/// Run one instruction.
pub fn step_filter(insn: &sock_filter, m: &mut BpfMachine, data: &Vec<u32>) -> (r: StepOutcome)
    requires
        data@.len() == 16,
        old(m).mem@.len() == 16,
    ensures
        final(m).mem@.len() == 16,
        match bpf_step(*insn, old(m)@, data@) {
            BpfStep::Next { state, skip } => r == (StepOutcome::Next { skip: skip as usize })
                && skip <= u32::MAX && final(m)@ == state,
            BpfStep::Ret { verdict } => r == (StepOutcome::Ret { verdict }),
            BpfStep::Fault => r == StepOutcome::Fault,
        },
{
    let code: u32 = insn.code as u32;
    let class: u32 = code & 0x07;
    let operand: u32 = if code & 0x08 == BPF_X {
        m.x
    } else {
        insn.k
    };
    if class == BPF_RET {
        let rval: u32 = code & 0x18;
        if rval == BPF_K {
            StepOutcome::Ret { verdict: insn.k }
        } else if rval == BPF_A {
            StepOutcome::Ret { verdict: m.a }
        } else {
            StepOutcome::Fault
        }
    } else if class == BPF_LD {
        match load_value(insn, m, data) {
            Some(v) => {
                m.a = v;
                StepOutcome::Next { skip: 0 }
            },
            None => StepOutcome::Fault,
        }
    } else if class == BPF_LDX {
        if code & 0xe0 == BPF_ABS {
            StepOutcome::Fault
        } else {
            match load_value(insn, m, data) {
                Some(v) => {
                    m.x = v;
                    StepOutcome::Next { skip: 0 }
                },
                None => StepOutcome::Fault,
            }
        }
    } else if class == BPF_ST {
        if insn.k < 16 {
            let a: u32 = m.a;
            m.mem.set(insn.k as usize, a);
            StepOutcome::Next { skip: 0 }
        } else {
            StepOutcome::Fault
        }
    } else if class == BPF_STX {
        if insn.k < 16 {
            let x: u32 = m.x;
            m.mem.set(insn.k as usize, x);
            StepOutcome::Next { skip: 0 }
        } else {
            StepOutcome::Fault
        }
    } else if class == BPF_ALU {
        match alu_value(code & 0xf0, m.a, operand) {
            Some(v) => {
                m.a = v;
                StepOutcome::Next { skip: 0 }
            },
            None => StepOutcome::Fault,
        }
    } else if class == BPF_JMP {
        let op: u32 = code & 0xf0;
        if op == BPF_JA {
            StepOutcome::Next { skip: insn.k as usize }
        } else {
            let taken = if op == BPF_JEQ {
                m.a == operand
            } else if op == BPF_JGT {
                m.a > operand
            } else if op == BPF_JGE {
                m.a >= operand
            } else if op == BPF_JSET {
                m.a & operand != 0
            } else {
                return StepOutcome::Fault;
            };
            StepOutcome::Next {
                skip: if taken {
                    insn.jt as usize
                } else {
                    insn.jf as usize
                },
            }
        }
    } else if class == BPF_MISC {
        let op: u32 = code & 0xf8;
        if op == 0x00 {
            m.x = m.a;
            StepOutcome::Next { skip: 0 }
        } else if op == 0x80 {
            m.a = m.x;
            StepOutcome::Next { skip: 0 }
        } else {
            StepOutcome::Fault
        }
    } else {
        StepOutcome::Fault
    }
}

/// Run `prog` on the `seccomp_data` record `data`, given as sixteen 32-bit
/// words, as the kernel runs it. Returns the program's verdict, or `None` if
/// it runs off its end or meets an instruction that seccomp does not run.
pub fn run_filter(prog: &Vec<sock_filter>, data: &Vec<u32>) -> (r: Option<u32>)
    requires
        data@.len() == 16,
    ensures
        r == bpf_run(prog@, data@),
{
    let mut mem: Vec<u32> = Vec::new();
    let mut i: usize = 0;
    while i < 16
        invariant
            i <= 16,
            mem@.len() == i,
            forall|k: int| 0 <= k < i ==> #[trigger] mem@[k] == 0u32,
        decreases 16 - i,
    {
        mem.push(0u32);
        i = i + 1;
    }
    let mut m = BpfMachine { a: 0, x: 0, mem };
    assert(m@.mem =~= bpf_initial_state().mem);
    let mut pc: usize = 0;
    while pc < prog.len()
        invariant
            data@.len() == 16,
            m.mem@.len() == 16,
            bpf_run(prog@, data@) == bpf_run_from(prog@, data@, pc as nat, m@),
        decreases prog@.len() - pc,
    {
        match step_filter(&prog[pc], &mut m, data) {
            StepOutcome::Ret { verdict } => {
                return Some(verdict);
            },
            StepOutcome::Fault => {
                return None;
            },
            StepOutcome::Next { skip } => {
                if skip >= prog.len() - pc - 1 {
                    return None;
                }
                pc = pc + 1 + skip;
            },
        }
    }
    None
}

} // verus!
