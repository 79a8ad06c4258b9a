//! Checks that say, at run time, whether a phase of the scratch-buffer
//! protocol can run on a task: whether the memory it reads and writes is
//! mapped, and the state of the syscall is what the phase expects.

use crate::kernel_abi::{word_size, word_size_spec};
use crate::param_size::{ArgMode, WriteBack, MAX_INCOMING_SIZE};
use crate::record_task::{RecordTask, Switchable};
use crate::task_syscall_state::{
    as_ints, copy_range, lemma_saved_total_monotonic, mutation_target, relocatable, relocation,
    saved_total, unmutated, MemoryParam, TaskSyscallState,
};
use crate::tracee_memory::mem_mapped;
use vstd::prelude::*;

verus! {

impl TaskSyscallState {
    /// Whether every parameter is well formed.
    pub fn is_well_formed(&self) -> (r: bool)
        ensures
            r == self@.wf(),
    {
        let mut i: usize = 0;
        while i < self.param_list.len()
            invariant
                i <= self.param_list@.len(),
                forall|k: int| 0 <= k < i ==> (#[trigger] self@.params[k]).wf(),
            decreases self.param_list@.len() - i,
        {
            let p: MemoryParam = self.param_list[i];
            let size_ok = p.num_bytes.incoming_size <= MAX_INCOMING_SIZE && (!(
            p.num_bytes.mem_ptr != 0 || p.num_bytes.from_syscall) || p.num_bytes.read_size == 4
                || p.num_bytes.read_size == 8);
            let mutator_ok = match p.mode {
                ArgMode::In => true,
                _ => !p.has_mutator,
            };
            if !(size_ok && p.ptr_in_reg <= 6 && mutator_ok) {
                assert(!self@.params[i as int].wf());
                return false;
            }
            i = i + 1;
        }
        true
    }

    /// Whether every size cell is mapped.
    pub fn are_sizes_readable(&self, t: &RecordTask) -> (r: bool)
        ensures
            r == self@.sizes_readable(t@.mem),
    {
        let mut i: usize = 0;
        while i < self.param_list.len()
            invariant
                i <= self.param_list@.len(),
                forall|k: int|
                    0 <= k < i ==> (#[trigger] self@.params[k]).num_bytes.readable(t@.mem),
            decreases self.param_list@.len() - i,
        {
            let p: MemoryParam = self.param_list[i];
            if p.num_bytes.mem_ptr != 0 && !t.mem.is_mapped(
                p.num_bytes.mem_ptr,
                p.num_bytes.read_size,
            ) {
                assert(!self@.params[i as int].num_bytes.readable(t@.mem));
                return false;
            }
            i = i + 1;
        }
        true
    }

    /// How many bytes of saved originals the parameters account for, or
    /// `None` if that is more than can be counted.
    pub fn saved_bytes_expected(&self) -> (r: Option<usize>)
        ensures
            match r {
                Some(total) => total == saved_total(self@.params, self@.params.len() as int),
                None => saved_total(self@.params, self@.params.len() as int) > usize::MAX,
            },
    {
        let mut total: usize = 0;
        let mut i: usize = 0;
        while i < self.param_list.len()
            invariant
                i <= self.param_list@.len(),
                total == saved_total(self@.params, i as int),
            decreases self.param_list@.len() - i,
        {
            let p: MemoryParam = self.param_list[i];
            if p.has_mutator {
                if p.num_bytes.incoming_size > usize::MAX - total {
                    proof {
                        lemma_saved_total_monotonic(
                            self@.params,
                            i as int + 1,
                            self@.params.len() as int,
                        );
                    }
                    return None;
                }
                total = total + p.num_bytes.incoming_size;
            }
            i = i + 1;
        }
        Some(total)
    }

    /// Whether `process_syscall_results` can run: whether the syscall was
    /// prepared and the memory to read and write is mapped.
    pub fn can_process_results(&self, t: &RecordTask) -> (r: bool)
        ensures
            r == self@.can_process(t@),
    {
        if !self.is_well_formed() || !(self.tuid == t.tuid) || !self.preparation_done
            || !self.are_sizes_readable(t) {
            return false;
        }
        let n: usize = self.param_list.len();
        let word: usize = word_size(t.arch());
        if self.scratch_enabled {
            if t.scratch_ptr > self.scratch || self.scratch - t.scratch_ptr > usize::MAX as u64 {
                return false;
            }
            if !t.mem.is_mapped(t.scratch_ptr, (self.scratch - t.scratch_ptr) as usize) {
                return false;
            }
            let sizes = self.evaluate_sizes(t);
            let copying = match self.write_back {
                WriteBack::WriteBack => true,
                WriteBack::NoWriteBack => false,
            };
            let mut i: usize = 0;
            while i < n
                invariant
                    i <= n,
                    n == self@.params.len(),
                    sizes@.len() == n,
                    as_ints(sizes@) == self@.result_sizes(t@),
                    copying == (self@.write_back == WriteBack::WriteBack),
                    word == word_size_spec(t@.regs.arch),
                    self@.scratch_enabled,
                    forall|k: int|
                        0 <= k < i && copying && (#[trigger] self@.params[k]).is_output()
                            ==> self@.slot_in(self@.params[k], t@) && mem_mapped(
                            t@.mem,
                            self@.params[k].dest as int,
                            self@.result_sizes(t@)[k],
                        ),
                    forall|k: int|
                        0 <= k < i && (#[trigger] self@.params[k]).ptr_in_memory != 0
                            ==> mem_mapped(
                            t@.mem,
                            self@.params[k].ptr_in_memory as int,
                            word_size_spec(t@.regs.arch) as int,
                        ),
                    forall|k: int|
                        0 <= k < i && copying && (#[trigger] self@.params[k]).mode
                            == ArgMode::InOutNoScratch ==> mem_mapped(
                            t@.mem,
                            self@.params[k].dest as int,
                            self@.result_sizes(t@)[k],
                        ),
                decreases n - i,
            {
                let p: MemoryParam = self.param_list[i];
                let size: usize = sizes[i];
                assert(as_ints(sizes@)[i as int] == size);
                let is_output = match p.mode {
                    ArgMode::Out | ArgMode::InOut => true,
                    _ => false,
                };
                let in_place = match p.mode {
                    ArgMode::InOutNoScratch => true,
                    _ => false,
                };
                if copying && is_output {
                    let slot_ok = t.scratch_ptr <= p.scratch && p.scratch <= self.scratch
                        && p.num_bytes.incoming_size as u64 <= self.scratch - p.scratch;
                    if !slot_ok || !t.mem.is_mapped(p.dest, size) {
                        assert(self@.params[i as int].is_output());
                        return false;
                    }
                }
                if p.ptr_in_memory != 0 && !t.mem.is_mapped(p.ptr_in_memory, word) {
                    assert(self@.params[i as int].ptr_in_memory != 0);
                    return false;
                }
                if copying && in_place && !t.mem.is_mapped(p.dest, size) {
                    assert(self@.params[i as int].mode == ArgMode::InOutNoScratch);
                    assert(!mem_mapped(
                        t@.mem,
                        self@.params[i as int].dest as int,
                        self@.result_sizes(t@)[i as int],
                    ));
                    return false;
                }
                i = i + 1;
            }
            true
        } else {
            assert(self.saved_data.len() <= usize::MAX);
            match self.saved_bytes_expected() {
                Some(total) => {
                    if total != self.saved_data.len() {
                        return false;
                    }
                },
                None => {
                    return false;
                },
            }
            // Put the originals back in a copy of memory, to see what the
            // sizes will be.
            let mut copy = RecordTask {
                tuid: t.tuid,
                regs: t.regs,
                mem: t.mem.duplicate(),
                scratch_ptr: t.scratch_ptr,
                usable_scratch_size: t.usable_scratch_size,
                desched_rec: t.desched_rec,
                prctl_seccomp_status: t.prctl_seccomp_status,
                tsc_mode: t.tsc_mode,
                dumpable: t.dumpable,
                done_initial_exec: t.done_initial_exec,
                syscall_event: t.syscall_event,
                trace: Vec::new(),
            };
            let mut taken: usize = 0;
            let mut i: usize = 0;
            proof {
                lemma_saved_total_monotonic(self@.params, 0, n as int);
            }
            while i < n
                invariant
                    i <= n,
                    n == self@.params.len(),
                    !self@.scratch_enabled,
                    self@.saved_data.len() == saved_total(self@.params, n as int),
                    taken == saved_total(self@.params, i as int),
                    taken <= saved_total(self@.params, n as int),
                    copy@.mem.mapped == t@.mem.mapped,
                    copy@.mem == unmutated(self@.params, self@.saved_data, t@.mem, i as int),
                    copy@.regs == t@.regs,
                    copy@.tuid == t@.tuid,
                    forall|k: int|
                        0 <= k < i && (#[trigger] self@.params[k]).has_mutator ==> mem_mapped(
                            t@.mem,
                            self@.params[k].dest as int,
                            self@.params[k].num_bytes.incoming_size as int,
                        ),
                decreases n - i,
            {
                let p: MemoryParam = self.param_list[i];
                proof {
                    lemma_saved_total_monotonic(self@.params, i as int + 1, n as int);
                    assert(self.saved_data.len() <= usize::MAX);
                    assert(saved_total(self@.params, i as int + 1) == saved_total(
                        self@.params,
                        i as int,
                    ) + (if self@.params[i as int].has_mutator {
                        self@.params[i as int].num_bytes.incoming_size as int
                    } else {
                        0
                    }));
                }
                if p.has_mutator {
                    let size: usize = p.num_bytes.incoming_size;
                    if !t.mem.is_mapped(p.dest, size) {
                        assert(self@.params[i as int].has_mutator);
                        return false;
                    }
                    let d = copy_range(&self.saved_data, taken, size);
                    let ok = copy.mem.write_bytes(p.dest, &d);
                    assert(ok);
                    taken = taken + size;
                }
                i = i + 1;
            }
            assert(self@.sizes_readable(copy@.mem)) by {
                assert forall|k: int| 0 <= k < self@.params.len() implies (
                #[trigger] self@.params[k]).num_bytes.readable(copy@.mem) by {
                    assert(self@.params[k].num_bytes.readable(t@.mem));
                }
            }
            let sizes = self.evaluate_sizes(&copy);
            let mut j: usize = 0;
            while j < n
                invariant
                    j <= n,
                    n == self@.params.len(),
                    sizes@.len() == n,
                    !self@.scratch_enabled,
                    as_ints(sizes@) == self@.result_sizes(t@),
                    forall|k: int|
                        0 <= k < j ==> mem_mapped(
                            t@.mem,
                            (#[trigger] self@.params[k]).dest as int,
                            self@.result_sizes(t@)[k],
                        ),
                decreases n - j,
            {
                let p: MemoryParam = self.param_list[j];
                let size: usize = sizes[j];
                assert(as_ints(sizes@)[j as int] == size);
                if !t.mem.is_mapped(p.dest, size) {
                    assert(!mem_mapped(
                        t@.mem,
                        self@.params[j as int].dest as int,
                        self@.result_sizes(t@)[j as int],
                    ));
                    return false;
                }
                j = j + 1;
            }
            true
        }
    }

    /// Whether `abort_syscall_results` can run: whether the syscall was
    /// prepared and the memory to write is mapped.
    pub fn can_abort_results(&self, t: &RecordTask) -> (r: bool)
        ensures
            r == self@.can_abort(t@),
    {
        if !self.is_well_formed() || !(self.tuid == t.tuid) || !self.preparation_done {
            return false;
        }
        let n: usize = self.param_list.len();
        let word: usize = word_size(t.arch());
        if !self.scratch_enabled {
            assert(self.saved_data.len() <= usize::MAX);
            match self.saved_bytes_expected() {
                Some(total) => {
                    if total > self.saved_data.len() {
                        return false;
                    }
                },
                None => {
                    return false;
                },
            }
        }
        let mut i: usize = 0;
        while i < n
            invariant
                i <= n,
                n == self@.params.len(),
                word == word_size_spec(t@.regs.arch),
                self@.scratch_enabled ==> forall|k: int|
                    0 <= k < i && (#[trigger] self@.params[k]).ptr_in_memory != 0 ==> mem_mapped(
                        t@.mem,
                        self@.params[k].ptr_in_memory as int,
                        word_size_spec(t@.regs.arch) as int,
                    ),
                !self@.scratch_enabled ==> forall|k: int|
                    0 <= k < i && (#[trigger] self@.params[k]).has_mutator ==> mem_mapped(
                        t@.mem,
                        self@.params[k].dest as int,
                        self@.params[k].num_bytes.incoming_size as int,
                    ),
            decreases n - i,
        {
            let p: MemoryParam = self.param_list[i];
            if self.scratch_enabled {
                if p.ptr_in_memory != 0 && !t.mem.is_mapped(p.ptr_in_memory, word) {
                    assert(self@.params[i as int].ptr_in_memory != 0);
                    return false;
                }
            } else if p.has_mutator && !t.mem.is_mapped(p.dest, p.num_bytes.incoming_size) {
                assert(self@.params[i as int].has_mutator);
                return false;
            }
            i = i + 1;
        }
        true
    }
}

impl TaskSyscallState {
    /// Whether every parameter that the kernel reads is mapped, and its
    /// scratch area too.
    pub fn are_inputs_mapped(&self, t: &RecordTask) -> (r: bool)
        ensures
            r == self@.inputs_mapped(t@),
    {
        let mut i: usize = 0;
        while i < self.param_list.len()
            invariant
                i <= self.param_list@.len(),
                forall|k: int|
                    0 <= k < i && (#[trigger] self@.params[k]).is_input() ==> mem_mapped(
                        t@.mem,
                        self@.params[k].dest as int,
                        self@.params[k].num_bytes.incoming_size as int,
                    ) && mem_mapped(
                        t@.mem,
                        self@.params[k].scratch as int,
                        self@.params[k].num_bytes.incoming_size as int,
                    ),
            decreases self.param_list@.len() - i,
        {
            let p: MemoryParam = self.param_list[i];
            let is_input = match p.mode {
                ArgMode::In | ArgMode::InOut => true,
                _ => false,
            };
            if is_input && !(t.mem.is_mapped(p.dest, p.num_bytes.incoming_size)
                && t.mem.is_mapped(p.scratch, p.num_bytes.incoming_size)) {
                assert(self@.params[i as int].is_input());
                return false;
            }
            i = i + 1;
        }
        true
    }

    /// Whether every pointer in memory to a parameter can be moved to
    /// scratch memory.
    pub fn are_pointers_movable(&self, t: &RecordTask) -> (r: bool)
        ensures
            r == self@.pointers_movable(t@),
    {
        let word: usize = word_size(t.arch());
        let mut i: usize = 0;
        while i < self.param_list.len()
            invariant
                i <= self.param_list@.len(),
                word == word_size_spec(t@.regs.arch),
                forall|k: int|
                    0 <= k < i && (#[trigger] self@.params[k]).ptr_in_memory != 0 ==> relocatable(
                        self@.params,
                        self@.params[k].ptr_in_memory,
                    ) && relocation(self@.params, self@.params[k].ptr_in_memory) <= u64::MAX
                        && mem_mapped(
                        t@.mem,
                        relocation(self@.params, self@.params[k].ptr_in_memory),
                        word_size_spec(t@.regs.arch) as int,
                    ),
            decreases self.param_list@.len() - i,
        {
            let p: MemoryParam = self.param_list[i];
            if p.ptr_in_memory != 0 {
                assert(self@.params[i as int].ptr_in_memory != 0);
                match self.relocate_pointer_to_scratch(p.ptr_in_memory) {
                    Some(at) => {
                        if !t.mem.is_mapped(at, word) {
                            return false;
                        }
                    },
                    None => {
                        return false;
                    },
                }
            }
            i = i + 1;
        }
        true
    }

    /// Whether every size cell can be moved to scratch memory.
    pub fn are_size_cells_movable(&self) -> (r: bool)
        ensures
            r == self@.size_cells_movable(),
    {
        let mut i: usize = 0;
        while i < self.param_list.len()
            invariant
                i <= self.param_list@.len(),
                forall|k: int|
                    0 <= k < i && (#[trigger] self@.params[k]).num_bytes.mem_ptr != 0
                        ==> relocatable(self@.params, self@.params[k].num_bytes.mem_ptr)
                        && relocation(self@.params, self@.params[k].num_bytes.mem_ptr)
                        <= u64::MAX,
            decreases self.param_list@.len() - i,
        {
            let p: MemoryParam = self.param_list[i];
            if p.num_bytes.mem_ptr != 0 {
                assert(self@.params[i as int].num_bytes.mem_ptr != 0);
                if self.relocate_pointer_to_scratch(p.num_bytes.mem_ptr).is_none() {
                    return false;
                }
            }
            i = i + 1;
        }
        true
    }

    /// Whether the decisions fit the parameters and can be carried out,
    /// with scratch memory on or off as `scratch_enabled` says.
    pub fn are_decisions_ready(
        &self,
        t: &RecordTask,
        scratch_enabled: bool,
        decisions: &Vec<Option<Vec<u8>>>,
    ) -> (r: bool)
        ensures
            r == self@.decisions_ready(t@, scratch_enabled, decisions@),
    {
        let mut i: usize = 0;
        while i < self.param_list.len()
            invariant
                i <= self.param_list@.len(),
                forall|k: int|
                    0 <= k < i && (#[trigger] self@.params[k]).has_mutator ==> k < decisions@.len()
                        && (decisions@[k] is Some ==> decisions@[k]->Some_0@.len()
                        == self@.params[k].num_bytes.incoming_size && mem_mapped(
                        t@.mem,
                        mutation_target(self@.params[k], scratch_enabled) as int,
                        self@.params[k].num_bytes.incoming_size as int,
                    )),
            decreases self.param_list@.len() - i,
        {
            let p: MemoryParam = self.param_list[i];
            if p.has_mutator {
                assert(self@.params[i as int].has_mutator);
                if i >= decisions.len() {
                    return false;
                }
                match &decisions[i] {
                    Some(bytes) => {
                        let target: u64 = if scratch_enabled {
                            p.scratch
                        } else {
                            p.dest
                        };
                        if bytes.len() != p.num_bytes.incoming_size || !t.mem.is_mapped(
                            target,
                            p.num_bytes.incoming_size,
                        ) {
                            return false;
                        }
                    },
                    None => {},
                }
            }
            i = i + 1;
        }
        true
    }

    /// Whether `done_preparing` can run on a syscall that is not prepared
    /// yet: whether the memory that the scratch setup and the mutators'
    /// decisions touch is mapped, and every pointer that has to move lies in
    /// exactly one parameter.
    pub fn can_finish_preparing(
        &self,
        t: &RecordTask,
        sw: Switchable,
        decisions: &Vec<Option<Vec<u8>>>,
    ) -> (r: bool)
        ensures
            r == self@.can_finish_preparing(t@, sw, decisions@),
    {
        if !self.is_well_formed() || !(self.tuid == t.tuid) || self.preparation_done {
            return false;
        }
        if t.scratch_ptr != 0 && self.scratch < t.scratch_ptr {
            return false;
        }
        let allow = match sw {
            Switchable::AllowSwitch => true,
            Switchable::PreventSwitch => false,
        };
        let will_enable = t.scratch_ptr != 0 && allow && self.scratch - t.scratch_ptr
            <= t.usable_scratch_size as u64 && self.param_list.len() > 0;
        if will_enable && !(self.are_inputs_mapped(t) && self.are_pointers_movable(t)
            && self.are_size_cells_movable()) {
            return false;
        }
        self.are_decisions_ready(t, self.scratch_enabled || will_enable, decisions)
    }
}

} // verus!
