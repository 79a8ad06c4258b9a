//! What the scratch-buffer protocol guarantees to the tracee.
//!
//! The tracee must not see its buffers change while its syscall is set up,
//! must find the kernel's outputs where it asked for them once the syscall
//! has exited, and must find nothing changed by an abort that follows.

use crate::kernel_abi::{word_size_spec, SupportedArch};
use crate::param_size::{pointer_bytes, ArgMode, ParamSize, WriteBack};
use crate::record_task::{RecordTaskView, Switchable, TaskUid};
use crate::registers::Registers;
use crate::task_syscall_state::{
    actual_sizes, consumed_before, copied_back, copied_in, decisions_fit,
    lemma_saved_total_monotonic, mutated,
    redirected_pointers, relocation, restored_pointers, restored_regs, saved_total, unmutated,
    with_relocated_sizes, MemoryParam, SyscallStateView,
};
use crate::tracee_memory::{mem_read, mem_same_outside, mem_write, MemImage};
use vstd::prelude::*;

verus! {

/// Every byte of `m` is defined, mapped or not.
pub open spec fn mem_total(m: MemImage) -> bool {
    m.bytes.dom() == Set::<int>::full()
}

/// The two ranges share no address.
pub open spec fn disjoint(a: int, alen: int, b: int, blen: int) -> bool {
    a + alen <= b || b + blen <= a || alen <= 0 || blen <= 0
}

/// Every scratch area that the setup writes, and every pointer it redirects,
/// lies in `[base, end)`.
pub open spec fn setup_within(
    params: Seq<MemoryParam>,
    arch: SupportedArch,
    base: int,
    end: int,
) -> bool {
    &&& forall|i: int|
        0 <= i < params.len() && (#[trigger] params[i]).is_input() ==> base <= params[i].scratch
            && params[i].scratch + params[i].num_bytes.incoming_size <= end
    &&& forall|i: int|
        0 <= i < params.len() && (#[trigger] params[i]).ptr_in_memory != 0 ==> base <= relocation(
            params,
            params[i].ptr_in_memory,
        ) && relocation(params, params[i].ptr_in_memory) + word_size_spec(arch) <= end
}

/// Two images that agree on a range read the same from it.
pub proof fn lemma_same_bytes_same_read(a: MemImage, b: MemImage, d: int, len: nat)
    requires
        forall|x: int| d <= x < d + len ==> #[trigger] a.bytes[x] == b.bytes[x],
    ensures
        mem_read(a, d, len) == mem_read(b, d, len),
{
    assert forall|k: int| 0 <= k < len implies #[trigger] mem_read(a, d, len)[k] == mem_read(
        b,
        d,
        len,
    )[k] by {
        assert(a.bytes[d + k] == b.bytes[d + k]);
    }
    assert(mem_read(a, d, len) =~= mem_read(b, d, len));
}

proof fn lemma_pointer_bytes_len(arch: SupportedArch, value: u64)
    ensures
        pointer_bytes(arch, value).len() == word_size_spec(arch),
{
}

proof fn lemma_copied_in_frame(params: Seq<MemoryParam>, m: MemImage, n: int, base: int, end: int)
    requires
        0 <= n <= params.len(),
        forall|i: int|
            0 <= i < params.len() && (#[trigger] params[i]).is_input() ==> base <= params[i].scratch
                && params[i].scratch + params[i].num_bytes.incoming_size <= end,
    ensures
        mem_same_outside(m, copied_in(params, m, n), base, end - base),
    decreases n,
{
    if n > 0 {
        lemma_copied_in_frame(params, m, n - 1, base, end);
        let m1 = copied_in(params, m, n - 1);
        let p = params[n - 1];
        if p.is_input() {
            let m2 = copied_in(params, m, n);
            assert forall|x: int| !(base <= x < base + (end - base)) implies #[trigger] m.bytes[x]
                == m2.bytes[x] by {
                assert(m1.bytes[x] == m.bytes[x]);
            }
        }
    }
}

proof fn lemma_redirected_pointers_frame(
    params: Seq<MemoryParam>,
    arch: SupportedArch,
    m: MemImage,
    n: int,
    base: int,
    end: int,
)
    requires
        0 <= n <= params.len(),
        forall|i: int|
            0 <= i < params.len() && (#[trigger] params[i]).ptr_in_memory != 0 ==> base
                <= relocation(params, params[i].ptr_in_memory) && relocation(
                params,
                params[i].ptr_in_memory,
            ) + word_size_spec(arch) <= end,
    ensures
        mem_same_outside(m, redirected_pointers(params, arch, m, n), base, end - base),
    decreases n,
{
    if n > 0 {
        lemma_redirected_pointers_frame(params, arch, m, n - 1, base, end);
        let m1 = redirected_pointers(params, arch, m, n - 1);
        let p = params[n - 1];
        if p.ptr_in_memory != 0 {
            let m2 = redirected_pointers(params, arch, m, n);
            lemma_pointer_bytes_len(arch, p.scratch);
            assert forall|x: int| !(base <= x < base + (end - base)) implies #[trigger] m.bytes[x]
                == m2.bytes[x] by {
                assert(m1.bytes[x] == m.bytes[x]);
            }
        }
    }
}

proof fn lemma_mutated_in_scratch_frame(
    params: Seq<MemoryParam>,
    decisions: Seq<Option<Vec<u8>>>,
    m: MemImage,
    saved: Seq<u8>,
    n: int,
    base: int,
    end: int,
)
    requires
        0 <= n <= params.len(),
        forall|i: int| 0 <= i < params.len() ==> (#[trigger] params[i]).wf(),
        decisions_fit(params, decisions),
        forall|i: int|
            0 <= i < params.len() && (#[trigger] params[i]).is_input() ==> base <= params[i].scratch
                && params[i].scratch + params[i].num_bytes.incoming_size <= end,
    ensures
        mem_same_outside(m, mutated(params, true, decisions, m, saved, n).0, base, end - base),
        mutated(params, true, decisions, m, saved, n).1 == saved,
    decreases n,
{
    if n > 0 {
        lemma_mutated_in_scratch_frame(params, decisions, m, saved, n - 1, base, end);
        let m1 = mutated(params, true, decisions, m, saved, n - 1).0;
        let p = params[n - 1];
        if p.has_mutator && decisions[n - 1] is Some {
            let m2 = mutated(params, true, decisions, m, saved, n).0;
            assert(p.wf());
            assert(p.is_input());
            assert forall|x: int| !(base <= x < base + (end - base)) implies #[trigger] m.bytes[x]
                == m2.bytes[x] by {
                assert(m1.bytes[x] == m.bytes[x]);
            }
        }
    }
}

/// Moving the size cells leaves the parameters' buffers, scratch areas and
/// mutators as they are.
proof fn lemma_relocated_sizes(params: Seq<MemoryParam>)
    requires
        forall|i: int| 0 <= i < params.len() ==> (#[trigger] params[i]).wf(),
    ensures
        with_relocated_sizes(params).len() == params.len(),
        forall|i: int|
            0 <= i < params.len() ==> {
                let q = #[trigger] with_relocated_sizes(params)[i];
                &&& q.wf()
                &&& q.mode == params[i].mode
                &&& q.scratch == params[i].scratch
                &&& q.dest == params[i].dest
                &&& q.num_bytes.incoming_size == params[i].num_bytes.incoming_size
                &&& q.has_mutator == params[i].has_mutator
            },
{
    assert forall|i: int| 0 <= i < params.len() implies {
        let q = #[trigger] with_relocated_sizes(params)[i];
        &&& q.wf()
        &&& q.mode == params[i].mode
        &&& q.scratch == params[i].scratch
        &&& q.dest == params[i].dest
        &&& q.num_bytes.incoming_size == params[i].num_bytes.incoming_size
        &&& q.has_mutator == params[i].has_mutator
    } by {
        assert(params[i].wf());
    }
}

/// While a syscall is set up with scratch memory, tracee memory changes in
/// the scratch buffer only: every byte outside it, and so every byte of
/// every parameter's destination that lies outside it, is as the tracee left
/// it.
///
/// This is stated of setups whose scratch areas and redirected pointers lie
/// in the part of the scratch buffer that was given out, as they do when
/// every parameter was registered after `init` and every pointer in memory
/// lies wholly in its parameter.
pub proof fn law_setup_changes_scratch_only(
    s: SyscallStateView,
    t: RecordTaskView,
    sw: Switchable,
    decisions: Seq<Option<Vec<u8>>>,
)
    requires
        s.can_finish_preparing(t, sw, decisions),
        s.will_enable_scratch(t, sw),
        setup_within(s.params, t.regs.arch, t.scratch_ptr as int, s.scratch as int),
    ensures
        mem_same_outside(
            t.mem,
            mutated(
                s.prepared_params(t, sw),
                s.prepared_scratch(t, sw),
                decisions,
                s.prepared_memory(t, sw),
                s.saved_data,
                s.params.len() as int,
            ).0,
            t.scratch_ptr as int,
            s.scratch - t.scratch_ptr,
        ),
{
    let params = s.params;
    let n = params.len() as int;
    let base = t.scratch_ptr as int;
    let end = s.scratch as int;
    let pp = with_relocated_sizes(params);
    let m1 = copied_in(params, t.mem, n);
    let m2 = redirected_pointers(params, t.regs.arch, m1, n);
    lemma_copied_in_frame(params, t.mem, n, base, end);
    lemma_redirected_pointers_frame(params, t.regs.arch, m1, n, base, end);
    lemma_relocated_sizes(params);
    assert(decisions_fit(pp, decisions)) by {
        assert forall|i: int| 0 <= i < pp.len() && (#[trigger] pp[i]).has_mutator implies i
            < decisions.len() && (decisions[i] is Some ==> decisions[i]->Some_0@.len()
            == pp[i].num_bytes.incoming_size) by {
            assert(params[i].has_mutator);
        }
    }
    assert forall|i: int| 0 <= i < pp.len() && (#[trigger] pp[i]).is_input() implies base
        <= pp[i].scratch && pp[i].scratch + pp[i].num_bytes.incoming_size <= end by {
        assert(params[i].is_input());
    }
    assert forall|i: int| 0 <= i < pp.len() implies (#[trigger] pp[i]).wf() by {}
    lemma_mutated_in_scratch_frame(pp, decisions, m2, s.saved_data, n, base, end);
    let after = mutated(pp, true, decisions, m2, s.saved_data, n).0;
    lemma_same_outside_chain(t.mem, m1, m2, after, base, end - base);
}

/// Agreement outside a range carries over a chain of images.
proof fn lemma_same_outside_chain(
    a: MemImage,
    b: MemImage,
    c: MemImage,
    d: MemImage,
    addr: int,
    len: int,
)
    requires
        mem_same_outside(a, b, addr, len),
        mem_same_outside(b, c, addr, len),
        mem_same_outside(c, d, addr, len),
    ensures
        mem_same_outside(a, d, addr, len),
{
    assert forall|x: int| !(addr <= x < addr + len) implies #[trigger] a.bytes[x] == d.bytes[x] by {
        assert(a.bytes[x] == b.bytes[x]);
        assert(b.bytes[x] == c.bytes[x]);
        assert(c.bytes[x] == d.bytes[x]);
    }
}

/// Images that agree outside a range read the same from any range that is
/// clear of it.
pub proof fn law_ranges_clear_of_a_change_read_the_same(
    a: MemImage,
    b: MemImage,
    addr: int,
    len: int,
    d: int,
    n: nat,
)
    requires
        mem_same_outside(a, b, addr, len),
        disjoint(d, n as int, addr, len),
    ensures
        mem_read(a, d, n) == mem_read(b, d, n),
{
    if n > 0 {
        if len > 0 {
            assert forall|x: int| d <= x < d + n implies #[trigger] a.bytes[x] == b.bytes[x] by {}
        } else {
            assert forall|x: int| d <= x < d + n implies #[trigger] a.bytes[x] == b.bytes[x] by {}
        }
        lemma_same_bytes_same_read(a, b, d, n);
    } else {
        assert(mem_read(a, d, n) =~= mem_read(b, d, n));
    }
}

/// Nothing that is copied back after parameter `i`, and no pointer that is
/// restored, touches the first `len` bytes of parameter `i`'s destination.
pub open spec fn destination_kept(
    params: Seq<MemoryParam>,
    sizes: Seq<int>,
    arch: SupportedArch,
    i: int,
    len: int,
) -> bool {
    &&& forall|j: int|
        i < j < params.len() && (#[trigger] params[j]).is_output() ==> disjoint(
            params[j].dest as int,
            sizes[j],
            params[i].dest as int,
            len,
        )
    &&& forall|j: int|
        0 <= j < params.len() && (#[trigger] params[j]).ptr_in_memory != 0 ==> disjoint(
            params[j].ptr_in_memory as int,
            word_size_spec(arch) as int,
            params[i].dest as int,
            len,
        )
}

proof fn lemma_copied_back_keeps(
    params: Seq<MemoryParam>,
    sizes: Seq<int>,
    data: Seq<u8>,
    base: int,
    m: MemImage,
    i: int,
    n: int,
)
    requires
        0 <= i < n <= params.len(),
        sizes.len() == params.len(),
        params[i].is_output(),
        0 <= sizes[i],
        0 <= params[i].scratch - base,
        params[i].scratch - base + sizes[i] <= data.len(),
        forall|j: int|
            i < j < params.len() && (#[trigger] params[j]).is_output() ==> disjoint(
                params[j].dest as int,
                sizes[j],
                params[i].dest as int,
                sizes[i],
            ),
        forall|j: int|
            0 <= j < params.len() && (#[trigger] params[j]).is_output() ==> 0 <= sizes[j] && 0
                <= params[j].scratch - base && params[j].scratch - base + sizes[j] <= data.len(),
    ensures
        mem_read(
            copied_back(params, sizes, data, base, m, n),
            params[i].dest as int,
            sizes[i] as nat,
        ) == data.subrange(params[i].scratch - base, params[i].scratch - base + sizes[i]),
    decreases n,
{
    let d = params[i].dest as int;
    let len = sizes[i] as nat;
    let want = data.subrange(params[i].scratch - base, params[i].scratch - base + sizes[i]);
    let m1 = copied_back(params, sizes, data, base, m, n - 1);
    let m2 = copied_back(params, sizes, data, base, m, n);
    if n - 1 == i {
        assert(mem_read(m2, d, len) =~= want);
    } else {
        lemma_copied_back_keeps(params, sizes, data, base, m, i, n - 1);
        let p = params[n - 1];
        if p.is_output() {
            let w = data.subrange(p.scratch - base, p.scratch - base + sizes[n - 1]);
            assert(w.len() == sizes[n - 1]);
            assert forall|x: int| d <= x < d + len implies #[trigger] m2.bytes[x]
                == m1.bytes[x] by {}
            lemma_same_bytes_same_read(m2, m1, d, len);
        }
    }
}

proof fn lemma_restored_pointers_keeps(
    params: Seq<MemoryParam>,
    arch: SupportedArch,
    m: MemImage,
    n: int,
    d: int,
    len: int,
)
    requires
        0 <= n <= params.len(),
        forall|j: int|
            0 <= j < params.len() && (#[trigger] params[j]).ptr_in_memory != 0 ==> disjoint(
                params[j].ptr_in_memory as int,
                word_size_spec(arch) as int,
                d,
                len,
            ),
    ensures
        forall|x: int|
            d <= x < d + len ==> #[trigger] restored_pointers(params, arch, m, n).bytes[x]
                == m.bytes[x],
    decreases n,
{
    if n > 0 {
        lemma_restored_pointers_keeps(params, arch, m, n - 1, d, len);
        let p = params[n - 1];
        if p.ptr_in_memory != 0 {
            lemma_pointer_bytes_len(arch, p.dest);
            let m1 = restored_pointers(params, arch, m, n - 1);
            let m2 = restored_pointers(params, arch, m, n);
            assert forall|x: int| d <= x < d + len implies #[trigger] m2.bytes[x]
                == m.bytes[x] by {
                assert(m1.bytes[x] == m.bytes[x]);
            }
        }
    }
}

/// When a syscall that ran with scratch memory has exited and its results
/// are processed, the destination of every output parameter holds what the
/// kernel wrote to the parameter's scratch area, as many bytes as the
/// parameter's actual size.
///
/// This is stated of a parameter whose destination is not written again:
/// no output registered after it, and no pointer that is restored, overlaps
/// the bytes in question.
pub proof fn law_outputs_reach_destinations(s: SyscallStateView, t: RecordTaskView, i: int)
    requires
        s.can_process(t),
        s.scratch_enabled,
        s.write_back == WriteBack::WriteBack,
        0 <= i < s.params.len(),
        s.params[i].is_output(),
        destination_kept(s.params, s.result_sizes(t), t.regs.arch, i, s.result_sizes(t)[i]),
    ensures
        mem_read(
            s.processed_memory(t),
            s.params[i].dest as int,
            s.result_sizes(t)[i] as nat,
        ) == mem_read(t.mem, s.params[i].scratch as int, s.result_sizes(t)[i] as nat),
{
    let params = s.params;
    let n = params.len() as int;
    let sizes = s.result_sizes(t);
    let data = s.scratch_contents(t);
    let base = t.scratch_ptr as int;
    let d = params[i].dest as int;
    let len = sizes[i];
    lemma_actual_sizes(params, t.mem, t.regs, n);
    assert forall|j: int| 0 <= j < params.len() && (#[trigger] params[j]).is_output() implies 0
        <= sizes[j] && 0 <= params[j].scratch - base && params[j].scratch - base + sizes[j]
        <= data.len() by {
        assert(s.slot_in(params[j], t));
        assert(params[j].wf());
    }
    let copied = copied_back(params, sizes, data, base, t.mem, n);
    lemma_copied_back_keeps(params, sizes, data, base, t.mem, i, n);
    lemma_restored_pointers_keeps(params, t.regs.arch, copied, n, d, len);
    let done = s.processed_memory(t);
    assert forall|x: int| d <= x < d + len implies #[trigger] done.bytes[x]
        == copied.bytes[x] by {
        assert(restored_pointers(params, t.regs.arch, copied, n).bytes[x] == copied.bytes[x]);
    }
    lemma_same_bytes_same_read(done, copied, d, len as nat);
    assert(data.subrange(params[i].scratch - base, params[i].scratch - base + len) =~= mem_read(
        t.mem,
        params[i].scratch as int,
        len as nat,
    ));
}

/// Nothing negative is taken from a source by parameters whose sizes are
/// not negative.
pub proof fn lemma_consumed_before(params: Seq<MemoryParam>, sizes: Seq<int>, i: int, n: int)
    requires
        0 <= n <= sizes.len(),
        forall|k: int| 0 <= k < n ==> 0 <= #[trigger] sizes[k],
    ensures
        0 <= consumed_before(params, sizes, i, n),
    decreases n,
{
    if n > 0 {
        lemma_consumed_before(params, sizes, i, n - 1);
    }
}

/// Actual sizes are as many as parameters, and none is negative or beyond
/// its parameter's incoming size.
pub proof fn lemma_actual_sizes(
    params: Seq<MemoryParam>,
    m: MemImage,
    regs: Registers,
    n: int,
)
    requires
        0 <= n <= params.len(),
        forall|i: int| 0 <= i < params.len() ==> (#[trigger] params[i]).wf(),
    ensures
        actual_sizes(params, m, regs, n).len() == n,
        forall|i: int|
            0 <= i < n ==> 0 <= #[trigger] actual_sizes(
                params,
                m,
                regs,
                n,
            )[i] <= params[i].num_bytes.incoming_size,
    decreases n,
{
    if n > 0 {
        lemma_actual_sizes(params, m, regs, n - 1);
        assert(params[n - 1].wf());
        lemma_consumed_before(params, actual_sizes(params, m, regs, n - 1), n - 1, n - 1);
    }
}

/// The byte that restoring the pointers to the first `n` parameters leaves
/// at `a`, if any of them is stored there.
pub open spec fn restored_byte(params: Seq<MemoryParam>, arch: SupportedArch, a: int, n: int)
    -> Option<u8>
    decreases n,
{
    if n <= 0 {
        None
    } else {
        let p = params[n - 1];
        if p.ptr_in_memory != 0 && p.ptr_in_memory <= a < p.ptr_in_memory + pointer_bytes(
            arch,
            p.dest,
        ).len() {
            Some(pointer_bytes(arch, p.dest)[a - p.ptr_in_memory])
        } else {
            restored_byte(params, arch, a, n - 1)
        }
    }
}

proof fn lemma_restored_pointers_bytes(
    params: Seq<MemoryParam>,
    arch: SupportedArch,
    m: MemImage,
    n: int,
)
    requires
        0 <= n <= params.len(),
        mem_total(m),
    ensures
        mem_total(restored_pointers(params, arch, m, n)),
        restored_pointers(params, arch, m, n).mapped == m.mapped,
        forall|a: int| #[trigger]
            restored_pointers(params, arch, m, n).bytes[a] == match restored_byte(
                params,
                arch,
                a,
                n,
            ) {
                Some(v) => v,
                None => m.bytes[a],
            },
    decreases n,
{
    if n > 0 {
        lemma_restored_pointers_bytes(params, arch, m, n - 1);
        let p = params[n - 1];
        if p.ptr_in_memory != 0 {
            let m2 = restored_pointers(params, arch, m, n);
            assert(m2.bytes.dom() =~= Set::<int>::full());
        }
    }
}

/// Restoring the pointers a second time changes nothing.
pub proof fn lemma_restored_pointers_idempotent(
    params: Seq<MemoryParam>,
    arch: SupportedArch,
    m: MemImage,
    n: int,
)
    requires
        0 <= n <= params.len(),
        mem_total(m),
    ensures
        restored_pointers(params, arch, restored_pointers(params, arch, m, n), n)
            == restored_pointers(params, arch, m, n),
{
    let once = restored_pointers(params, arch, m, n);
    let twice = restored_pointers(params, arch, once, n);
    lemma_restored_pointers_bytes(params, arch, m, n);
    lemma_restored_pointers_bytes(params, arch, once, n);
    assert(twice.bytes =~= once.bytes);
    assert(twice =~= once);
}

proof fn lemma_unmutated_nothing(params: Seq<MemoryParam>, saved: Seq<u8>, m: MemImage, n: int)
    requires
        0 <= n <= params.len(),
        mem_total(m),
        saved_total(params, params.len() as int) == 0,
    ensures
        unmutated(params, saved, m, n) == m,
        saved_total(params, n) == 0,
    decreases n,
{
    lemma_saved_total_monotonic(params, n, params.len() as int);
    if n > 0 {
        lemma_unmutated_nothing(params, saved, m, n - 1);
        lemma_saved_total_monotonic(params, n - 1, n);
        let p = params[n - 1];
        if p.has_mutator {
            let w = saved.subrange(
                saved_total(params, n - 1),
                saved_total(params, n - 1) + p.num_bytes.incoming_size,
            );
            assert(mem_write(m, p.dest as int, w).bytes =~= m.bytes);
            assert(mem_write(m, p.dest as int, w) =~= m);
        }
    }
}

proof fn lemma_unmutated_total(params: Seq<MemoryParam>, saved: Seq<u8>, m: MemImage, n: int)
    requires
        mem_total(m),
    ensures
        mem_total(unmutated(params, saved, m, n)),
    decreases n,
{
    if n > 0 {
        lemma_unmutated_total(params, saved, m, n - 1);
        if params[n - 1].has_mutator {
            assert(unmutated(params, saved, m, n).bytes.dom() =~= Set::<int>::full());
        }
    }
}

/// The state in which `process_syscall_results` leaves a syscall.
pub open spec fn state_after_results(s: SyscallStateView) -> SyscallStateView {
    SyscallStateView {
        saved_data: if s.scratch_enabled {
            s.saved_data
        } else {
            Seq::empty()
        },
        ..s
    }
}

/// The task as `process_syscall_results` leaves it.
pub open spec fn task_after_results(s: SyscallStateView, t: RecordTaskView) -> RecordTaskView {
    RecordTaskView {
        mem: s.processed_memory(t),
        regs: s.processed_regs(t),
        trace: t.trace + s.processed_records(t),
        ..t
    }
}

/// An abort that follows the processing of a syscall's results changes no
/// byte of tracee memory.
///
/// This is stated of the states in which the abort can run at all: with
/// scratch memory off, a parameter that a mutator changed has had its
/// contents put back and the saved copy is used up, so that an abort has
/// nothing left to put back.
pub proof fn law_abort_after_results_changes_nothing(s: SyscallStateView, t: RecordTaskView)
    requires
        s.can_process(t),
        mem_total(t.mem),
        state_after_results(s).can_abort(task_after_results(s, t)),
    ensures
        state_after_results(s).aborted_memory(task_after_results(s, t)) == task_after_results(
            s,
            t,
        ).mem,
{
    let params = s.params;
    let n = params.len() as int;
    let s1 = state_after_results(s);
    let t1 = task_after_results(s, t);
    if s.scratch_enabled {
        let copied = if s.write_back == WriteBack::WriteBack {
            copied_back(
                params,
                s.result_sizes(t),
                s.scratch_contents(t),
                t.scratch_ptr as int,
                t.mem,
                n,
            )
        } else {
            t.mem
        };
        lemma_copied_back_total(
            params,
            s.result_sizes(t),
            s.scratch_contents(t),
            t.scratch_ptr as int,
            t.mem,
            n,
        );
        lemma_restored_pointers_idempotent(params, t.regs.arch, copied, n);
        assert(t1.regs.arch == t.regs.arch) by {
            lemma_restored_regs_arch(params, t.regs, n);
        }
    } else {
        lemma_unmutated_total(params, s.saved_data, t.mem, n);
        lemma_unmutated_nothing(params, s1.saved_data, t1.mem, n);
    }
}

proof fn lemma_copied_back_total(
    params: Seq<MemoryParam>,
    sizes: Seq<int>,
    data: Seq<u8>,
    base: int,
    m: MemImage,
    n: int,
)
    requires
        mem_total(m),
    ensures
        mem_total(copied_back(params, sizes, data, base, m, n)),
    decreases n,
{
    if n > 0 {
        lemma_copied_back_total(params, sizes, data, base, m, n - 1);
        if params[n - 1].is_output() {
            assert(copied_back(params, sizes, data, base, m, n).bytes.dom() =~= Set::<int>::full());
        }
    }
}

proof fn lemma_restored_regs_arch(
    params: Seq<MemoryParam>,
    regs: Registers,
    n: int,
)
    ensures
        restored_regs(params, regs, n).arch == regs.arch,
    decreases n,
{
    if n > 0 {
        lemma_restored_regs_arch(params, regs, n - 1);
    }
}

impl SyscallStateView {
    /// Every scratch area lies in the part of the scratch buffer from
    /// `base` on that has been given out.
    pub open spec fn slots_within(self, base: u64) -> bool {
        &&& base <= self.scratch
        &&& forall|i: int|
            0 <= i < self.params.len() && (#[trigger] self.params[i]).mode
                != ArgMode::InOutNoScratch ==> base <= self.params[i].scratch
                && self.params[i].scratch + self.params[i].num_bytes.incoming_size
                <= self.scratch
    }
}

/// The state of a syscall that was just entered by a task whose scratch
/// buffer starts at `base`.
pub open spec fn entered_at(tuid: TaskUid, base: u64) -> SyscallStateView {
    SyscallStateView { scratch: base, ..SyscallStateView::fresh(tuid) }
}

/// Scratch memory is given out from the start of the task's scratch buffer
/// upwards: a registration takes its scratch area from where the last one
/// ended, and never moves what was given out before. So the scratch areas of
/// a syscall that was entered with `init` all lie between the start of the
/// scratch buffer and where allocation stands.
pub proof fn law_scratch_is_given_out_upwards(
    before: SyscallStateView,
    after: SyscallStateView,
    base: u64,
    dest: u64,
    size: ParamSize,
    maybe_mode: Option<ArgMode>,
    has_mutator: bool,
    ptr_in_reg: usize,
    ptr_in_memory: u64,
)
    requires
        before.slots_within(base),
        SyscallStateView::registration(
            before,
            after,
            dest,
            size,
            maybe_mode,
            has_mutator,
            ptr_in_reg,
            ptr_in_memory,
        ),
    ensures
        after.slots_within(base),
        after.scratch >= before.scratch,
        entered_at(before.tuid, base).slots_within(base),
{
    if dest != 0 {
        assert forall|i: int|
            0 <= i < after.params.len() && (#[trigger] after.params[i]).mode
                != ArgMode::InOutNoScratch implies base <= after.params[i].scratch
            && after.params[i].scratch + after.params[i].num_bytes.incoming_size
            <= after.scratch by {
            if i < before.params.len() {
                assert(after.params[i] == before.params[i]);
            }
        }
    }
}

} // verus!
