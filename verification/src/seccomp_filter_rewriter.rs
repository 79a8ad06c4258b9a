//! Rewriting of seccomp-BPF filters so that the tracer sees every syscall a
//! filter would have stopped.
//!
//! When seccomp decides not to run a syscall, the kernel returns to user
//! space without a trace of it. The recorder therefore turns every verdict
//! but `ALLOW` into a `TRACE` verdict. A verdict has 32 bits and a `TRACE`
//! verdict carries 16, so each distinct verdict is given an index, and the
//! table of indexes is kept to map a trace event back to the verdict the
//! program's author wrote.

use crate::arch_structs::{
    decode_program, decode_program_spec, encode_program, encode_program_spec, sock_fprog,
};
use crate::kernel_abi::{
    sock_filter, syscall_number, syscall_number_spec, KnownSyscall, SupportedArch, BPF_K, BPF_RET,
    SECCOMP_FILTER_FLAG_TSYNC, SECCOMP_RET_ALLOW, SECCOMP_RET_DATA, SECCOMP_RET_TRACE,
};
use crate::record_task::RecordTask;
use crate::registers::{fit, unsigned64, Registers};
use crate::seccomp_bpf::{
    bpf_class, bpf_initial_state, bpf_run, bpf_run_from, bpf_rval, bpf_step, callsite_rules,
    lemma_callsite_rules_run, seccomp_data_ip_low, BpfState, BpfStep, SeccompFilter,
};
use crate::tracee_memory::{mem_mapped, mem_read};
use std::collections::HashMap;
use vstd::prelude::*;

verus! {

broadcast use vstd::std_specs::hash::group_hash_axioms;

/// The original syscall number that makes the kernel skip a syscall and that
/// the kernel never produces by itself: the mark of a syscall that the
/// recorder vetoed.
pub const SECCOMP_MAGIC_SKIP_ORIGINAL_SYSCALLNO: i64 = -2;

/// Index values start here, clear of the values a `PTRACE_EVENT_EXIT`
/// message can hold.
pub const BASE_CUSTOM_DATA: u32 = 0x100;

/// The most verdicts the table can hold: each needs a 16-bit value of its
/// own at or above `BASE_CUSTOM_DATA`, and below the all-ones value.
pub const MAX_VERDICTS: usize = 0xfeff;

/// Why a filter cannot be rewritten.
#[derive(Clone, Copy, Debug, PartialEq, Eq, Structural)]
pub enum RewriteError {
    /// The filters seen so far use more distinct verdicts than 16 bits can
    /// index.
    TooManyConstants,
}

/// The class of an instruction code.
#[allow(non_snake_case)]
pub fn BPF_CLASS(code: u16) -> (r: u32)
    ensures
        r == bpf_class(code),
{
    code as u32 & 0x07
}

/// Where a `RET` instruction takes its verdict from.
#[allow(non_snake_case)]
pub fn BPF_RVAL(code: u16) -> (r: u32)
    ensures
        r == bpf_rval(code),
{
    code as u32 & 0x18
}

/// `insn` ends the filter.
pub open spec fn is_return(insn: sock_filter) -> bool {
    bpf_class(insn.code) == BPF_RET
}

/// Every `RET` of `code` returns a constant.
pub open spec fn returns_are_constant(code: Seq<sock_filter>) -> bool {
    forall|i: int|
        0 <= i < code.len() && is_return(#[trigger] code[i]) ==> bpf_rval(code[i].code) == BPF_K
}

/// `insn` returns a verdict that has to be replaced.
pub open spec fn needs_index(insn: sock_filter) -> bool {
    is_return(insn) && insn.k != SECCOMP_RET_ALLOW
}

/// No verdict stands twice in `table`.
pub open spec fn distinct(table: Seq<u32>) -> bool {
    forall|i: int, j: int|
        0 <= i < table.len() && 0 <= j < table.len() && #[trigger] table[i] == #[trigger] table[j]
            ==> i == j
}

/// `table` with the verdicts of `code` that it lacks, in the order of their
/// first use.
pub open spec fn extend_table(table: Seq<u32>, code: Seq<sock_filter>) -> Seq<u32>
    decreases code.len(),
{
    if code.len() == 0 {
        table
    } else {
        let t = extend_table(table, code.drop_last());
        if needs_index(code.last()) && !t.contains(code.last().k) {
            t.push(code.last().k)
        } else {
            t
        }
    }
}

/// A table grows only by verdicts that the code returns and that are not
/// `ALLOW`: what the grown table holds, the table held before, or is the
/// constant of a `RET` of the code other than `ALLOW`.
pub proof fn law_table_grows_by_stops_only(table: Seq<u32>, code: Seq<sock_filter>, v: u32)
    requires
        extend_table(table, code).contains(v),
    ensures
        table.contains(v) || (v != SECCOMP_RET_ALLOW && exists|i: int|
            0 <= i < code.len() && is_return(#[trigger] code[i]) && code[i].k == v),
        !table.contains(SECCOMP_RET_ALLOW) ==> v != SECCOMP_RET_ALLOW,
    decreases code.len(),
{
    if code.len() > 0 {
        let head = code.drop_last();
        let t = extend_table(table, head);
        if t.contains(v) {
            law_table_grows_by_stops_only(table, head, v);
            if !table.contains(v) {
                let i = choose|i: int|
                    0 <= i < head.len() && is_return(#[trigger] head[i]) && head[i].k == v;
                assert(code[i] == head[i]);
            }
        } else {
            let grown = extend_table(table, code);
            let w = choose|w: int| 0 <= w < grown.len() && grown[w] == v;
            if w < t.len() {
                assert(t[w] == v);
            }
            assert(code[code.len() - 1].k == v);
        }
    }
}

/// Where `k` stands in `table`.
pub open spec fn table_index(table: Seq<u32>, k: u32) -> int {
    choose|i: int| 0 <= i < table.len() && table[i] == k
}

/// The `TRACE` verdict that carries index `index`.
pub open spec fn trace_verdict(index: int) -> u32 {
    ((BASE_CUSTOM_DATA + index) as u32) | SECCOMP_RET_TRACE
}

/// `insn` as the rewritten filter has it: a verdict other than `ALLOW`
/// becomes the `TRACE` verdict of its index in `table`.
pub open spec fn patched_insn(table: Seq<u32>, insn: sock_filter) -> sock_filter {
    if needs_index(insn) {
        sock_filter { k: trace_verdict(table_index(table, insn.k)), ..insn }
    } else {
        insn
    }
}

/// `code` with every instruction patched.
pub open spec fn patched_program(table: Seq<u32>, code: Seq<sock_filter>) -> Seq<sock_filter> {
    Seq::new(code.len(), |i: int| patched_insn(table, code[i]))
}

/// The verdict that the 16-bit value `value` of a trace event stands for.
pub open spec fn real_result(table: Seq<u32>, value: u16) -> Option<u32> {
    if value < BASE_CUSTOM_DATA {
        None
    } else {
        Some(table[value - BASE_CUSTOM_DATA])
    }
}

/// What a filter's verdict becomes under the rewrite.
pub open spec fn patched_verdict(table: Seq<u32>, verdict: u32) -> u32 {
    if verdict == SECCOMP_RET_ALLOW {
        verdict
    } else {
        trace_verdict(table_index(table, verdict))
    }
}

pub proof fn lemma_table_index(table: Seq<u32>, k: u32, i: int)
    requires
        distinct(table),
        0 <= i < table.len(),
        table[i] == k,
    ensures
        table_index(table, k) == i,
{
}

/// The extended table begins with the old one, holds every verdict of the
/// code that needs an index, and repeats none if the old one repeated none.
pub proof fn lemma_extend_table(table: Seq<u32>, code: Seq<sock_filter>)
    ensures
        table.len() <= extend_table(table, code).len(),
        forall|i: int| 0 <= i < table.len() ==> #[trigger] extend_table(table, code)[i] == table[i],
        forall|j: int|
            0 <= j < code.len() && needs_index(#[trigger] code[j]) ==> extend_table(
                table,
                code,
            ).contains(code[j].k),
        distinct(table) ==> distinct(extend_table(table, code)),
    decreases code.len(),
{
    if code.len() > 0 {
        let head = code.drop_last();
        let t = extend_table(table, head);
        let e = extend_table(table, code);
        lemma_extend_table(table, head);
        assert forall|j: int|
            0 <= j < code.len() && needs_index(#[trigger] code[j]) implies e.contains(
            code[j].k,
        ) by {
            if j < code.len() - 1 {
                assert(head[j] == code[j]);
                let w = choose|w: int| 0 <= w < t.len() && t[w] == code[j].k;
                assert(e[w] == code[j].k);
            } else if t.contains(code[j].k) {
                let w = choose|w: int| 0 <= w < t.len() && t[w] == code[j].k;
                assert(e[w] == code[j].k);
            } else {
                assert(e[e.len() - 1] == code[j].k);
            }
        }
        if distinct(table) {
            assert forall|i: int, j: int|
                0 <= i < e.len() && 0 <= j < e.len() && #[trigger] e[i] == #[trigger] e[j] implies i
                == j by {
                if e.len() > t.len() {
                    if i < t.len() && j < t.len() {
                        assert(t[i] == t[j]);
                    } else if i < t.len() {
                        assert(t.contains(t[i]));
                    } else if j < t.len() {
                        assert(t.contains(t[j]));
                    }
                } else {
                    assert(t[i] == t[j]);
                }
            }
        }
    }
}

/// Extending by a longer stretch of code extends further.
pub proof fn lemma_extend_table_step(table: Seq<u32>, code: Seq<sock_filter>, n: int)
    requires
        0 <= n < code.len(),
    ensures
        extend_table(table, code.take(n + 1)) == if needs_index(code[n]) && !extend_table(
            table,
            code.take(n),
        ).contains(code[n].k) {
            extend_table(table, code.take(n)).push(code[n].k)
        } else {
            extend_table(table, code.take(n))
        },
{
    assert(code.take(n + 1).drop_last() =~= code.take(n));
}

/// The table of verdicts that the rewritten filters stand for, with its
/// inverse for quick lookup.
pub struct SeccompFilterRewriter {
    /// For each verdict in the table, where it stands.
    result_to_index: HashMap<u32, u16>,
    /// The verdicts, in the order they were first met.
    index_to_result: Vec<u32>,
}

impl View for SeccompFilterRewriter {
    type V = Seq<u32>;

    closed spec fn view(&self) -> Seq<u32> {
        self.index_to_result@
    }
}

impl SeccompFilterRewriter {
    /// The lookup map is the inverse of the table, and the table is within
    /// its bound.
    pub closed spec fn wf(&self) -> bool {
        &&& self.index_to_result@.len() <= MAX_VERDICTS
        &&& forall|i: int|
            0 <= i < self.index_to_result@.len() ==> self.result_to_index@.contains_key(
                #[trigger] self.index_to_result@[i],
            ) && self.result_to_index@[self.index_to_result@[i]] == i
        &&& forall|k: u32| #[trigger]
            self.result_to_index@.contains_key(k) ==> {
                let i = self.result_to_index@[k] as int;
                i < self.index_to_result@.len() && self.index_to_result@[i] == k
            }
        &&& !self.result_to_index@.contains_key(SECCOMP_RET_ALLOW)
    }

    /// A well-formed table repeats no verdict, is within its bound, and
    /// does not hold `ALLOW`, which is never replaced.
    pub proof fn lemma_wf(&self)
        requires
            self.wf(),
        ensures
            distinct(self@),
            self@.len() <= MAX_VERDICTS,
            !self@.contains(SECCOMP_RET_ALLOW),
    {
        if self@.contains(SECCOMP_RET_ALLOW) {
            let w = choose|w: int| 0 <= w < self@.len() && self@[w] == SECCOMP_RET_ALLOW;
            assert(self.result_to_index@.contains_key(self.index_to_result@[w]));
        }
        let table = self@;
        assert forall|i: int, j: int|
            0 <= i < table.len() && 0 <= j < table.len() && #[trigger] table[i]
                == #[trigger] table[j] implies i == j by {
            assert(self.result_to_index@[self.index_to_result@[i]] == i);
            assert(self.result_to_index@[self.index_to_result@[j]] == j);
        }
    }

    /// A rewriter that has seen no filter.
    pub fn new() -> (r: SeccompFilterRewriter)
        ensures
            r.wf(),
            r@.len() == 0,
    {
        SeccompFilterRewriter { result_to_index: HashMap::new(), index_to_result: Vec::new() }
    }

    /// The table as a vector, oldest verdict first.
    pub fn index_to_result(&self) -> (r: Vec<u32>)
        ensures
            r@ == self@,
    {
        self.index_to_result.clone()
    }

    /// The index of `verdict`, if it is in the table.
    pub fn index_of(&self, verdict: u32) -> (r: Option<u16>)
        requires
            self.wf(),
        ensures
            r.is_some() == self@.contains(verdict),
            r.is_some() ==> (r.unwrap() as int) < self@.len() && self@[r.unwrap() as int]
                == verdict,
    {
        match self.result_to_index.get(&verdict) {
            Some(i) => {
                assert(self.result_to_index@.contains_key(verdict));
                assert(self@[*i as int] == verdict);
                Some(*i)
            },
            None => {
                proof {
                    if self@.contains(verdict) {
                        let w = choose|w: int| 0 <= w < self@.len() && self@[w] == verdict;
                        assert(self.result_to_index@.contains_key(self.index_to_result@[w]));
                    }
                }
                None
            },
        }
    }

    /// Recover the verdict that a trace event's 16-bit value stands for.
    /// Returns false, and leaves `result` alone, if the value is below the
    /// range of indexes: an exit event probably got in the way.
    pub fn map_filter_data_to_real_result(&self, value: u16, result: &mut u32) -> (ok: bool)
        requires
            self.wf(),
            value >= BASE_CUSTOM_DATA ==> value - BASE_CUSTOM_DATA < self@.len(),
        ensures
            ok == (value >= BASE_CUSTOM_DATA),
            ok ==> Some(*final(result)) == real_result(self@, value),
            !ok ==> *final(result) == *old(result),
    {
        if (value as u32) < BASE_CUSTOM_DATA {
            return false;
        }
        *result = self.index_to_result[value as usize - BASE_CUSTOM_DATA as usize];
        true
    }

    /// Whether `value` is one that `map_filter_data_to_real_result` accepts.
    pub fn is_known_filter_data(&self, value: u16) -> (r: bool)
        ensures
            r == (value >= BASE_CUSTOM_DATA ==> value - BASE_CUSTOM_DATA < self@.len()),
    {
        (value as u32) < BASE_CUSTOM_DATA || (value as usize - BASE_CUSTOM_DATA as usize)
            < self.index_to_result.len()
    }

    /// Plan the installation of the filter that `t`'s syscall asks for. See
    /// `install_patched_seccomp_filter_arch`.
    pub fn install_patched_seccomp_filter(
        &mut self,
        t: &RecordTask,
        rd_page_syscalls: &Vec<RdPageSyscall>,
    ) -> (r: Result<SeccompInstall, RewriteError>)
        requires
            old(self).wf(),
            requested_program(t) is Some ==> returns_are_constant(requested_program(t)->Some_0),
        ensures
            final(self).wf(),
            match requested_program(t) {
                None => r matches Ok(SeccompInstall::PassThrough) && final(self)@ == old(self)@,
                Some(code) => match r {
                    Ok(SeccompInstall::PassThrough) => false,
                    Ok(SeccompInstall::Install { filters }) => {
                        &&& extend_table(old(self)@, code).len() <= MAX_VERDICTS
                        &&& final(self)@ == extend_table(old(self)@, code)
                        &&& filters@ == callsite_rules(privileged_callsites(rd_page_syscalls@))
                            + patched_program(final(self)@, code)
                    },
                    Err(RewriteError::TooManyConstants) => {
                        &&& extend_table(old(self)@, code).len() > MAX_VERDICTS
                        &&& final(self)@ == old(self)@
                    },
                },
            },
    {
        install_patched_seccomp_filter_arch(t, self, rd_page_syscalls)
    }

    /// Forget the verdicts added after the table had `len` entries.
    fn truncate(&mut self, len: usize)
        requires
            old(self).wf(),
            len <= old(self)@.len(),
        ensures
            final(self).wf(),
            final(self)@ == old(self)@.take(len as int),
    {
        while self.index_to_result.len() > len
            invariant
                self.wf(),
                len <= self@.len() <= old(self)@.len(),
                self@ == old(self)@.take(self@.len() as int),
            decreases self.index_to_result.len(),
        {
            proof {
                self.lemma_wf();
            }
            let ghost before = self@;
            let ghost before_map = self.result_to_index@;
            let last: u32 = self.index_to_result[self.index_to_result.len() - 1];
            self.index_to_result.pop();
            self.result_to_index.remove(&last);
            assert(self.result_to_index@ == before_map.remove(last));
            assert(self@ =~= before.drop_last());
            assert forall|i: int| 0 <= i < self@.len() implies self.result_to_index@.contains_key(
                #[trigger] self.index_to_result@[i],
            ) && self.result_to_index@[self.index_to_result@[i]] == i by {
                assert(before[i] == self@[i]);
                assert(before[before.len() - 1] == last);
            }
            assert forall|k: u32| #[trigger] self.result_to_index@.contains_key(k) implies (
            self.result_to_index@[k] as int) < self.index_to_result@.len()
                && self.index_to_result@[self.result_to_index@[k] as int] == k by {
                assert(before_map.contains_key(k));
                assert(k != last);
            }
            assert(self@ =~= old(self)@.take(self@.len() as int));
        }
        assert(self@ =~= old(self)@.take(len as int));
    }

    /// Rewrite a filter program all of whose `RET` instructions return a
    /// constant: every verdict other than `ALLOW` becomes a `TRACE` verdict
    /// that carries the verdict's index, and the table grows by the verdicts
    /// it had not seen. A program with too many verdicts leaves the table as
    /// it was.
    pub fn rewrite_program(&mut self, code: &Vec<sock_filter>) -> (r: Result<
        Vec<sock_filter>,
        RewriteError,
    >)
        requires
            old(self).wf(),
            returns_are_constant(code@),
        ensures
            final(self).wf(),
            match r {
                Ok(patched) => {
                    &&& extend_table(old(self)@, code@).len() <= MAX_VERDICTS
                    &&& final(self)@ == extend_table(old(self)@, code@)
                    &&& patched@ == patched_program(final(self)@, code@)
                },
                Err(RewriteError::TooManyConstants) => {
                    &&& extend_table(old(self)@, code@).len() > MAX_VERDICTS
                    &&& final(self)@ == old(self)@
                },
            },
    {
        let old_len: usize = self.index_to_result.len();
        let mut out: Vec<sock_filter> = Vec::new();
        let mut i: usize = 0;
        assert(code@.take(0) =~= Seq::<sock_filter>::empty());
        while i < code.len()
            invariant
                i <= code.len(),
                self.wf(),
                old(self).wf(),
                returns_are_constant(code@),
                old_len == old(self)@.len(),
                self@ == extend_table(old(self)@, code@.take(i as int)),
                out@.len() == i,
                forall|j: int| 0 <= j < i ==> #[trigger] out@[j] == patched_insn(self@, code@[j]),
            decreases code.len() - i,
        {
            let insn: sock_filter = code[i];
            let ghost before = self@;
            proof {
                self.lemma_wf();
                lemma_extend_table_step(old(self)@, code@, i as int);
                lemma_extend_table(old(self)@, code@.take(i as int));
                lemma_extend_table(old(self)@, code@.take(i + 1));
            }
            if BPF_CLASS(insn.code) == BPF_RET && insn.k != SECCOMP_RET_ALLOW {
                let index: u16 = match self.index_of(insn.k) {
                    Some(index) => index,
                    None => {
                        if self.index_to_result.len() >= MAX_VERDICTS {
                            proof {
                                lemma_extend_table_grows(
                                    old(self)@,
                                    code@,
                                    i as int + 1,
                                    code@.len() as int,
                                );
                                assert(code@.take(code@.len() as int) =~= code@);
                                assert(needs_index(code@[i as int]));
                                assert(extend_table(old(self)@, code@.take(i + 1)).len()
                                    == before.len() + 1);
                                assert(extend_table(old(self)@, code@).len() > MAX_VERDICTS);
                            }
                            self.truncate(old_len);
                            assert(self@ =~= old(self)@);
                            return Err(RewriteError::TooManyConstants);
                        }
                        let index: u16 = self.index_to_result.len() as u16;
                        self.result_to_index.insert(insn.k, index);
                        self.index_to_result.push(insn.k);
                        assert(self@ == before.push(insn.k));
                        let ghost table = self.index_to_result@;
                        let ghost lookup = self.result_to_index@;
                        assert forall|w: int| 0 <= w < table.len() implies lookup.contains_key(
                            #[trigger] table[w],
                        ) && lookup[table[w]] == w by {
                            if w < before.len() {
                                assert(before[w] == self@[w]);
                                assert(before.contains(before[w]));
                            }
                        }
                        index
                    },
                };
                proof {
                    self.lemma_wf();
                    lemma_table_index(self@, insn.k, index as int);
                }
                out.push(
                    sock_filter {
                        code: insn.code,
                        jt: insn.jt,
                        jf: insn.jf,
                        k: (BASE_CUSTOM_DATA + index as u32) | SECCOMP_RET_TRACE,
                    },
                );
            } else {
                out.push(insn);
            }
            proof {
                self.lemma_wf();
                assert forall|j: int| 0 <= j < i + 1 implies #[trigger] out@[j] == patched_insn(
                    self@,
                    code@[j],
                ) by {
                    if j < i && needs_index(code@[j]) {
                        assert(code@.take(i as int)[j] == code@[j]);
                        assert(before.contains(code@[j].k));
                        let w = table_index(before, code@[j].k);
                        assert(self@[w] == before[w]);
                        lemma_table_index(self@, code@[j].k, w);
                    }
                }
            }
            i = i + 1;
        }
        assert(code@.take(code@.len() as int) =~= code@);
        assert(out@ =~= patched_program(self@, code@));
        Ok(out)
    }
}

/// One syscall stub of the recorder's own page in the tracee.
#[derive(Clone, Copy, Debug, PartialEq, Eq, Structural)]
pub struct RdPageSyscall {
    /// Whether syscalls made through the stub bypass the tracee's filters.
    pub privileged: bool,
    /// Whether the stub is in use.
    pub enabled: bool,
    /// The address right behind the stub's syscall instruction.
    pub exit_point: u32,
}

/// The exit points of the stubs among `entries` that are privileged and
/// enabled, in order.
pub open spec fn privileged_callsites(entries: Seq<RdPageSyscall>) -> Seq<u32>
    decreases entries.len(),
{
    if entries.len() == 0 {
        Seq::empty()
    } else if entries.last().privileged && entries.last().enabled {
        privileged_callsites(entries.drop_last()).push(entries.last().exit_point)
    } else {
        privileged_callsites(entries.drop_last())
    }
}

/// The filter program that the task's syscall asks to install, if all of it
/// can be read: the third argument points to a `sock_fprog`, which points to
/// the instructions.
pub open spec fn requested_program(t: &RecordTask) -> Option<Seq<sock_filter>> {
    let arch = t.regs.arch;
    let at = t.regs.arg_spec(3) as int;
    let size = sock_fprog::size_spec(arch);
    if !mem_mapped(t.mem@, at, size as int) {
        None
    } else {
        let prog = sock_fprog::decode_spec(arch, mem_read(t.mem@, at, size as nat));
        if !mem_mapped(t.mem@, prog.filter as int, 8 * prog.len) {
            None
        } else {
            Some(
                decode_program_spec(
                    mem_read(t.mem@, prog.filter as int, (8 * prog.len) as nat),
                    prog.len as nat,
                ),
            )
        }
    }
}

/// What to do about a syscall that installs a filter.
pub enum SeccompInstall {
    /// The program could not be read. Run the syscall as the tracee made it,
    /// so that the kernel reports the error.
    PassThrough,
    /// Run the syscall with this program in place of the tracee's.
    Install { filters: Vec<sock_filter> },
}

/// Read the filter program that `t`'s syscall asks to install.
pub fn read_requested_program(t: &RecordTask) -> (r: Option<Vec<sock_filter>>)
    ensures
        match r {
            Some(code) => requested_program(t) == Some(code@),
            None => requested_program(t) is None,
        },
{
    let arch = t.arch();
    let at: u64 = t.regs.arg3();
    let prog_bytes = match t.mem.read_bytes(at, sock_fprog::size_of(arch)) {
        Some(b) => b,
        None => {
            return None;
        },
    };
    let prog = sock_fprog::decode(arch, &prog_bytes);
    let code_bytes = match t.mem.read_bytes(prog.filter, 8 * (prog.len as usize)) {
        Some(b) => b,
        None => {
            return None;
        },
    };
    Some(decode_program(&code_bytes, prog.len as usize))
}

/// Plan the installation of the filter that `t`'s syscall asks for: read the
/// program, rewrite it against `rewriter`'s table, and put in front of it the
/// rules that allow the syscalls of the recorder's privileged stubs. A
/// program that can be read must take every verdict it returns from a
/// constant: no other can be rewritten.
pub fn install_patched_seccomp_filter_arch(
    t: &RecordTask,
    rewriter: &mut SeccompFilterRewriter,
    rd_page_syscalls: &Vec<RdPageSyscall>,
) -> (r: Result<SeccompInstall, RewriteError>)
    requires
        old(rewriter).wf(),
        requested_program(t) is Some ==> returns_are_constant(requested_program(t)->Some_0),
    ensures
        final(rewriter).wf(),
        match requested_program(t) {
            None => r matches Ok(SeccompInstall::PassThrough) && final(rewriter)@ == old(
                rewriter,
            )@,
            Some(code) => match r {
                Ok(SeccompInstall::PassThrough) => false,
                Ok(SeccompInstall::Install { filters }) => {
                    &&& extend_table(old(rewriter)@, code).len() <= MAX_VERDICTS
                    &&& final(rewriter)@ == extend_table(old(rewriter)@, code)
                    &&& filters@ == callsite_rules(privileged_callsites(rd_page_syscalls@))
                        + patched_program(final(rewriter)@, code)
                },
                Err(RewriteError::TooManyConstants) => {
                    &&& extend_table(old(rewriter)@, code).len() > MAX_VERDICTS
                    &&& final(rewriter)@ == old(rewriter)@
                },
            },
        },
{
    let code = match read_requested_program(t) {
        Some(code) => code,
        None => {
            return Ok(SeccompInstall::PassThrough);
        },
    };
    let patched = match rewriter.rewrite_program(&code) {
        Ok(patched) => patched,
        Err(e) => {
            return Err(e);
        },
    };
    let mut f = SeccompFilter::new();
    let mut i: usize = 0;
    assert(f.filters@ =~= callsite_rules(privileged_callsites(rd_page_syscalls@.take(0))));
    while i < rd_page_syscalls.len()
        invariant
            i <= rd_page_syscalls.len(),
            f.filters@ == callsite_rules(privileged_callsites(rd_page_syscalls@.take(i as int))),
        decreases rd_page_syscalls.len() - i,
    {
        let e: RdPageSyscall = rd_page_syscalls[i];
        assert(rd_page_syscalls@.take(i + 1).drop_last() =~= rd_page_syscalls@.take(i as int));
        if e.privileged && e.enabled {
            f.allow_syscalls_from_callsite(e.exit_point);
            assert(privileged_callsites(rd_page_syscalls@.take(i + 1)).drop_last()
                =~= privileged_callsites(rd_page_syscalls@.take(i as int)));
        }
        i = i + 1;
    }
    assert(rd_page_syscalls@.take(rd_page_syscalls@.len() as int) =~= rd_page_syscalls@);
    let mut filters = f.filters;
    let mut j: usize = 0;
    let ghost prefix = filters@;
    while j < patched.len()
        invariant
            j <= patched.len(),
            filters@ == prefix + patched@.take(j as int),
        decreases patched.len() - j,
    {
        filters.push(patched[j]);
        j = j + 1;
        assert(filters@ =~= prefix + patched@.take(j as int));
    }
    assert(patched@.take(patched@.len() as int) =~= patched@);
    Ok(SeccompInstall::Install { filters })
}

/// The bytes to place in the tracee for an installation: the instructions,
/// then the `sock_fprog` that points back to them. `None` if the program has
/// more instructions than the structure can count, or would lie beyond what
/// a pointer of `arch` can reach.
pub open spec fn installation_image_spec(
    arch: SupportedArch,
    filters: Seq<sock_filter>,
    base: u64,
) -> Option<Seq<u8>> {
    let prog = sock_fprog { len: filters.len() as u16, filter: base };
    if filters.len() > u16::MAX || base + 8 * filters.len() > u64::MAX || !prog.fits(arch) {
        None
    } else {
        Some(encode_program_spec(filters) + prog.encode_spec(arch))
    }
}

/// The bytes to place at `base` in the tracee for an installation. The
/// syscall's third argument is then `base + 8 * filters.len()`.
pub fn installation_image(arch: SupportedArch, filters: &Vec<sock_filter>, base: u64) -> (r: Option<
    Vec<u8>,
>)
    ensures
        match r {
            Some(image) => installation_image_spec(arch, filters@, base) == Some(image@),
            None => installation_image_spec(arch, filters@, base) is None,
        },
{
    if filters.len() > u16::MAX as usize {
        return None;
    }
    if (u64::MAX - base) < 8 * (filters.len() as u64) {
        return None;
    }
    let prog = sock_fprog { len: filters.len() as u16, filter: base };
    match arch {
        SupportedArch::X86 => {
            if base > u32::MAX as u64 {
                return None;
            }
        },
        SupportedArch::X64 => {},
    }
    let mut image = encode_program(filters);
    let mut tail = prog.encode(arch);
    image.append(&mut tail);
    Some(image)
}

/// Store a syscall's result in the task's registers.
pub fn set_syscall_result(t: &mut RecordTask, ret: i64)
    ensures
        *final(t) == (RecordTask {
            regs: Registers { ax: fit(old(t).regs.arch, unsigned64(ret)), ..old(t).regs },
            ..*old(t)
        }),
{
    let mut r: Registers = t.regs;
    r.set_syscall_result_signed(ret);
    t.regs = r;
}

/// Finish a passed-through installation: `ret` is what the syscall returned
/// when run as the tracee made it, which must be an error.
pub fn pass_through_seccomp_filter(t: &mut RecordTask, ret: i64)
    requires
        -4096 < ret < 0,
    ensures
        *final(t) == (RecordTask {
            regs: Registers { ax: fit(old(t).regs.arch, unsigned64(ret)), ..old(t).regs },
            ..*old(t)
        }),
        final(t).regs.syscall_failed_spec(),
{
    proof {
        lemma_error_result(ret);
    }
    set_syscall_result(t, ret);
}

/// A negated errno survives the trip through a result register of either
/// architecture.
pub proof fn lemma_error_result(ret: i64)
    requires
        -4096 < ret < 0,
    ensures
        crate::registers::signed64(unsigned64(ret)) == ret,
        crate::registers::signed32(unsigned64(ret) % crate::registers::WORD32) == ret,
{
    let u = unsigned64(ret);
    assert(u == ret + 0x1_0000_0000_0000_0000);
    assert(u == 0xffff_ffff * 0x1_0000_0000 + (ret + 0x1_0000_0000));
    assert(u % 0x1_0000_0000 == ret + 0x1_0000_0000) by (nonlinear_arith)
        requires
            u == 0xffff_ffff * 0x1_0000_0000 + (ret + 0x1_0000_0000),
            0 <= ret + 0x1_0000_0000 < 0x1_0000_0000,
    ;
}

/// Whether a successful installation by `regs`'s syscall reaches every task
/// of the thread group.
pub open spec fn installs_for_thread_group(regs: Registers) -> bool {
    regs.original_syscallno_spec() == syscall_number_spec(KnownSyscall::Seccomp, regs.arch) && (
    regs.arg_spec(2) & (SECCOMP_FILTER_FLAG_TSYNC as u64)) != 0
}

/// Finish an installation: `ret` is what the syscall returned when run with
/// the patched program. If it succeeded the task is under seccomp from now
/// on, and the result says whether every other task of its thread group is
/// too.
pub fn complete_seccomp_install(t: &mut RecordTask, ret: i64) -> (mirror_to_siblings: bool)
    ensures
        final(t).regs == (Registers {
            ax: fit(old(t).regs.arch, unsigned64(ret)),
            ..old(t).regs
        }),
        final(t).regs.syscall_failed_spec() ==> !mirror_to_siblings && *final(t) == (RecordTask {
            regs: final(t).regs,
            ..*old(t)
        }),
        !final(t).regs.syscall_failed_spec() ==> mirror_to_siblings == installs_for_thread_group(
            old(t).regs,
        ) && *final(t) == (RecordTask {
            regs: final(t).regs,
            prctl_seccomp_status: 2,
            ..*old(t)
        }),
{
    let arg2: u64 = t.regs.arg2();
    let orig_syscallno: i64 = t.regs.original_syscallno();
    let arch = t.arch();
    set_syscall_result(t, ret);
    if t.regs.syscall_failed() {
        return false;
    }
    t.prctl_seccomp_status = 2;
    orig_syscallno == syscall_number(KnownSyscall::Seccomp, arch) as i64 && (arg2 & (
    SECCOMP_FILTER_FLAG_TSYNC as u64)) != 0
}

/// A table only grows as more code is taken into account.
pub proof fn lemma_extend_table_grows(table: Seq<u32>, code: Seq<sock_filter>, n: int, m: int)
    requires
        0 <= n <= m <= code.len(),
    ensures
        extend_table(table, code.take(n)).len() <= extend_table(table, code.take(m)).len(),
    decreases m - n,
{
    if n < m {
        lemma_extend_table_grows(table, code, n, m - 1);
        lemma_extend_table_step(table, code, m - 1);
    }
}

/// Whether every `RET` of `code` returns a constant.
pub fn all_returns_constant(code: &Vec<sock_filter>) -> (r: bool)
    ensures
        r == returns_are_constant(code@),
{
    let mut i: usize = 0;
    while i < code.len()
        invariant
            i <= code.len(),
            forall|j: int|
                0 <= j < i && is_return(#[trigger] code@[j]) ==> bpf_rval(code@[j].code) == BPF_K,
        decreases code.len() - i,
    {
        if BPF_CLASS(code[i].code) == BPF_RET && BPF_RVAL(code[i].code) != BPF_K {
            assert(is_return(code@[i as int]));
            return false;
        }
        i = i + 1;
    }
    true
}

/// The 16-bit value that a verdict carries.
pub open spec fn verdict_data(verdict: u32) -> u16 {
    (verdict & SECCOMP_RET_DATA) as u16
}

/// The action that a verdict names, which is all of it but the 16 bits it carries.
pub open spec fn verdict_action(verdict: u32) -> u32 {
    verdict & 0xffff_0000
}

/// A `TRACE` verdict built for an index is a `TRACE` verdict, is never
/// `ALLOW`, and carries `BASE_CUSTOM_DATA` plus the index.
pub proof fn lemma_trace_verdict(index: int)
    requires
        0 <= index < MAX_VERDICTS,
    ensures
        verdict_action(trace_verdict(index)) == SECCOMP_RET_TRACE,
        verdict_data(trace_verdict(index)) == BASE_CUSTOM_DATA + index,
        trace_verdict(index) != SECCOMP_RET_ALLOW,
{
    let d: u32 = (BASE_CUSTOM_DATA + index) as u32;
    assert(d <= 0xffff ==> (d | 0x7ff0_0000u32) & 0xffff_0000u32 == 0x7ff0_0000u32
        && (d | 0x7ff0_0000u32) & 0x0000_ffffu32 == d && (d | 0x7ff0_0000u32) != 0x7fff_0000u32)
        by (bit_vector);
}

/// Every verdict in the table is recovered from the value that stands for
/// it: the value is `BASE_CUSTOM_DATA` plus the verdict's index, and mapping
/// that value back gives the verdict.
pub proof fn law_index_round_trip(table: Seq<u32>, verdict: u32)
    requires
        distinct(table),
        table.len() <= MAX_VERDICTS,
        table.contains(verdict),
    ensures
        0 <= table_index(table, verdict) < table.len(),
        real_result(table, (BASE_CUSTOM_DATA + table_index(table, verdict)) as u16) == Some(
            verdict,
        ),
        real_result(table, verdict_data(trace_verdict(table_index(table, verdict)))) == Some(
            verdict,
        ),
{
    lemma_trace_verdict(table_index(table, verdict));
}

/// The rewritten program runs as the original does, step for step, and ends
/// with the original's verdict patched.
pub proof fn lemma_patched_run(
    table: Seq<u32>,
    code: Seq<sock_filter>,
    data: Seq<u32>,
    pc: nat,
    st: BpfState,
)
    requires
        returns_are_constant(code),
    ensures
        bpf_run_from(patched_program(table, code), data, pc, st) == match bpf_run_from(
            code,
            data,
            pc,
            st,
        ) {
            Some(v) => Some(patched_verdict(table, v)),
            None => None,
        },
    decreases code.len() - pc,
{
    let patched = patched_program(table, code);
    if pc < code.len() {
        let insn = code[pc as int];
        assert(patched[pc as int] == patched_insn(table, insn));
        if is_return(insn) {
            assert(bpf_step(insn, st, data) == (BpfStep::Ret { verdict: insn.k }));
            assert(bpf_step(patched[pc as int], st, data) == (BpfStep::Ret {
                verdict: patched[pc as int].k,
            }));
        } else {
            match bpf_step(insn, st, data) {
                BpfStep::Next { state, skip } => {
                    if pc + 1 + skip < code.len() {
                        lemma_patched_run(table, code, data, pc + 1 + skip, state);
                    }
                },
                _ => {},
            }
        }
    }
}

/// A verdict that a program of constant returns gives is the constant of
/// one of its `RET` instructions.
pub proof fn lemma_verdict_is_written(
    code: Seq<sock_filter>,
    data: Seq<u32>,
    pc: nat,
    st: BpfState,
)
    requires
        returns_are_constant(code),
        bpf_run_from(code, data, pc, st) is Some,
    ensures
        exists|j: int|
            0 <= j < code.len() && is_return(#[trigger] code[j]) && code[j].k == bpf_run_from(
                code,
                data,
                pc,
                st,
            )->Some_0,
    decreases code.len() - pc,
{
    if pc < code.len() {
        let insn = code[pc as int];
        if is_return(insn) {
            assert(bpf_step(insn, st, data) == (BpfStep::Ret { verdict: insn.k }));
        } else {
            match bpf_step(insn, st, data) {
                BpfStep::Next { state, skip } => {
                    if pc + 1 + skip < code.len() {
                        lemma_verdict_is_written(code, data, pc + 1 + skip, state);
                    }
                },
                _ => {},
            }
        }
    }
}

/// The program that is installed for `code`: the call-site rules of the
/// recorder's stubs, then `code` patched against the extended table.
pub open spec fn installed_program(
    table_before: Seq<u32>,
    code: Seq<sock_filter>,
    callsites: Seq<u32>,
) -> Seq<sock_filter> {
    callsite_rules(callsites) + patched_program(extend_table(table_before, code), code)
}

/// The state in which `code` starts behind the call-site rules: the rules
/// leave the instruction pointer's low word in the accumulator.
pub open spec fn state_behind_rules(callsites: Seq<u32>, data: Seq<u32>) -> BpfState {
    if callsites.len() == 0 {
        bpf_initial_state()
    } else {
        BpfState { a: seccomp_data_ip_low(data), ..bpf_initial_state() }
    }
}

/// Where a filter stops a syscall with a verdict, the installed program
/// reports a trace event whose value maps back to that verdict.
///
/// This is stated of syscalls made from outside the recorder's stubs, and of
/// filters that do not read the accumulator before they load it (the
/// call-site rules leave a value there).
pub proof fn law_stopped_syscalls_are_traced(
    table_before: Seq<u32>,
    code: Seq<sock_filter>,
    callsites: Seq<u32>,
    data: Seq<u32>,
    verdict: u32,
)
    requires
        distinct(table_before),
        returns_are_constant(code),
        extend_table(table_before, code).len() <= MAX_VERDICTS,
        data.len() == 16,
        !callsites.contains(seccomp_data_ip_low(data)),
        bpf_run_from(code, data, 0, state_behind_rules(callsites, data)) == bpf_run(code, data),
        bpf_run(code, data) == Some(verdict),
        verdict != SECCOMP_RET_ALLOW,
    ensures
        ({
            let table = extend_table(table_before, code);
            let index = table_index(table, verdict);
            &&& 0 <= index < table.len()
            &&& bpf_run(installed_program(table_before, code, callsites), data) == Some(
                trace_verdict(index),
            )
            &&& verdict_action(trace_verdict(index)) == SECCOMP_RET_TRACE
            &&& real_result(table, verdict_data(trace_verdict(index))) == Some(verdict)
        }),
{
    let table = extend_table(table_before, code);
    let patched = patched_program(table, code);
    let st = state_behind_rules(callsites, data);
    lemma_extend_table(table_before, code);
    lemma_verdict_is_written(code, data, 0, bpf_initial_state());
    law_index_round_trip(table, verdict);
    lemma_trace_verdict(table_index(table, verdict));
    lemma_callsite_rules_run(callsites, patched, data, bpf_initial_state());
    lemma_patched_run(table, code, data, 0, st);
}

/// The installed program allows what the filter allowed, and no more than
/// that and the recorder's own stubs: a syscall made from a privileged stub
/// is always allowed, and any other is allowed exactly if the filter allowed
/// it.
///
/// The second part is stated of filters that do not read the accumulator
/// before they load it.
pub proof fn law_allowed_syscalls_are_preserved(
    table_before: Seq<u32>,
    code: Seq<sock_filter>,
    callsites: Seq<u32>,
    data: Seq<u32>,
)
    requires
        distinct(table_before),
        returns_are_constant(code),
        extend_table(table_before, code).len() <= MAX_VERDICTS,
        data.len() == 16,
    ensures
        callsites.contains(seccomp_data_ip_low(data)) ==> bpf_run(
            installed_program(table_before, code, callsites),
            data,
        ) == Some(SECCOMP_RET_ALLOW),
        !callsites.contains(seccomp_data_ip_low(data)) && bpf_run_from(
            code,
            data,
            0,
            state_behind_rules(callsites, data),
        ) == bpf_run(code, data) ==> (bpf_run(
            installed_program(table_before, code, callsites),
            data,
        ) == Some(SECCOMP_RET_ALLOW) <==> bpf_run(code, data) == Some(SECCOMP_RET_ALLOW)),
{
    let table = extend_table(table_before, code);
    let patched = patched_program(table, code);
    let st = state_behind_rules(callsites, data);
    lemma_extend_table(table_before, code);
    lemma_callsite_rules_run(callsites, patched, data, bpf_initial_state());
    lemma_patched_run(table, code, data, 0, st);
    if bpf_run_from(code, data, 0, st) is Some {
        let v = bpf_run_from(code, data, 0, st)->Some_0;
        lemma_verdict_is_written(code, data, 0, st);
        if v != SECCOMP_RET_ALLOW {
            law_index_round_trip(table, v);
            lemma_trace_verdict(table_index(table, v));
        }
    }
}

} // verus!
