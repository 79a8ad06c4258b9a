//! The scratch-buffer protocol for syscalls that may block: its state and
//! its three phases.
//!
//! When a task enters a syscall that may block, and the syscall's parameters
//! point to buffers, the recorder points them to scratch memory instead.
//! Several blocked syscalls may then complete in any order without their
//! outputs becoming visible to other tasks before the recorder says so. When
//! the syscall exits, the recorder copies the outputs from scratch memory to
//! where the tracee wanted them, and records them.
//!
//! A syscall handler registers each memory parameter while the syscall is
//! entered. `done_preparing` then sets up scratch memory,
//! `process_syscall_results` copies back and records, and
//! `abort_syscall_results` undoes the setup of a syscall that never ran.

use crate::kernel_abi::{word_size_spec, SupportedArch};
use crate::param_size::{
    align_scratch, aligned_up, get_remote_ptr, mem_pointer, pointer_bytes, set_remote_ptr, ArgMode,
    ParamSize, WriteBack,
};
use crate::record_task::{RecordTask, RecordTaskView, RecordedView, Switchable, TaskUid};
use crate::registers::Registers;
use crate::tracee_memory::{mem_mapped, mem_read, mem_write, MemImage};
use vstd::prelude::*;

verus! {

/// One memory parameter of the syscall being handled.
#[derive(Clone, Copy, Debug, PartialEq, Eq, Structural)]
pub struct MemoryParam {
    /// Where the tracee wants the data.
    pub dest: u64,
    /// Where in scratch memory the kernel is pointed to instead.
    pub scratch: u64,
    pub num_bytes: ParamSize,
    /// If not 0, the address of the pointer to this parameter.
    pub ptr_in_memory: u64,
    /// If not 0, the number of the syscall argument that points to this
    /// parameter.
    pub ptr_in_reg: usize,
    pub mode: ArgMode,
    /// Whether the recorder changes what the kernel reads of this parameter.
    pub has_mutator: bool,
}

impl MemoryParam {
    /// `ptr` points into the parameter's buffer.
    pub open spec fn contains(self, ptr: u64) -> bool {
        self.dest <= ptr < self.dest + self.num_bytes.incoming_size
    }

    /// The kernel reads the parameter.
    pub open spec fn is_input(self) -> bool {
        self.mode == ArgMode::In || self.mode == ArgMode::InOut
    }

    /// The kernel writes the parameter, to scratch memory if that is on.
    pub open spec fn is_output(self) -> bool {
        self.mode == ArgMode::Out || self.mode == ArgMode::InOut
    }

    pub open spec fn wf(self) -> bool {
        &&& self.num_bytes.wf()
        &&& self.ptr_in_reg <= 6
        &&& self.has_mutator ==> self.mode == ArgMode::In
    }
}

/// Parameter `i` is the one and only whose buffer `ptr` points into.
pub open spec fn sole_container(params: Seq<MemoryParam>, ptr: u64, i: int) -> bool {
    &&& 0 <= i < params.len()
    &&& params[i].contains(ptr)
    &&& forall|j: int| 0 <= j < params.len() && (#[trigger] params[j]).contains(ptr) ==> j == i
}

/// `ptr` points into the buffer of exactly one parameter.
pub open spec fn relocatable(params: Seq<MemoryParam>, ptr: u64) -> bool {
    exists|i: int| sole_container(params, ptr, i)
}

/// Where `ptr` lies once its parameter's buffer is in scratch memory.
pub open spec fn relocation(params: Seq<MemoryParam>, ptr: u64) -> int {
    let i = choose|i: int| sole_container(params, ptr, i);
    params[i].scratch + (ptr - params[i].dest)
}

/// Something to be done once the results of a syscall have been processed.
/// The library keeps the token; whoever registers it knows what it stands
/// for, and does it.
pub type AfterSyscallAction = u32;

/// What the recorder remembers of a task's current syscall.
pub struct TaskSyscallState {
    pub tuid: TaskUid,
    pub param_list: Vec<MemoryParam>,
    /// Where in the task's scratch buffer the next parameter goes.
    pub scratch: u64,
    /// The registers the task entered the syscall with.
    pub syscall_entry_registers: Registers,
    /// If not 0, the errno with which the syscall must fail.
    pub expect_errno: i32,
    /// Whether the syscall's result is to be replaced by `emulated_result`.
    pub should_emulate_result: bool,
    pub emulated_result: u64,
    /// Whether the task may be switched out. Meaningful once
    /// `preparation_done`.
    pub switchable: Switchable,
    /// Whether results are copied back from scratch memory. Meaningful once
    /// `preparation_done`.
    pub write_back: WriteBack,
    /// Whether the syscall has been prepared, and must not be again.
    pub preparation_done: bool,
    /// Whether parameters are in scratch memory. Meaningful once
    /// `preparation_done`.
    pub scratch_enabled: bool,
    /// Original contents of the parameters that were changed in place, in
    /// the order of the parameters.
    pub saved_data: Vec<u8>,
    /// What is to be done once the results have been processed, in the
    /// order of registration.
    pub after_syscall_actions: Vec<AfterSyscallAction>,
}

/// What a `TaskSyscallState` says.
pub struct SyscallStateView {
    pub tuid: TaskUid,
    pub params: Seq<MemoryParam>,
    pub scratch: u64,
    pub syscall_entry_registers: Registers,
    pub expect_errno: i32,
    pub should_emulate_result: bool,
    pub emulated_result: u64,
    pub switchable: Switchable,
    pub write_back: WriteBack,
    pub preparation_done: bool,
    pub scratch_enabled: bool,
    pub saved_data: Seq<u8>,
    pub after_syscall_actions: Seq<AfterSyscallAction>,
}

impl View for TaskSyscallState {
    type V = SyscallStateView;

    open spec fn view(&self) -> SyscallStateView {
        SyscallStateView {
            tuid: self.tuid,
            params: self.param_list@,
            scratch: self.scratch,
            syscall_entry_registers: self.syscall_entry_registers,
            expect_errno: self.expect_errno,
            should_emulate_result: self.should_emulate_result,
            emulated_result: self.emulated_result,
            switchable: self.switchable,
            write_back: self.write_back,
            preparation_done: self.preparation_done,
            scratch_enabled: self.scratch_enabled,
            saved_data: self.saved_data@,
            after_syscall_actions: self.after_syscall_actions@,
        }
    }
}

impl SyscallStateView {
    /// Every parameter is well formed.
    pub open spec fn wf(self) -> bool {
        forall|i: int| 0 <= i < self.params.len() ==> (#[trigger] self.params[i]).wf()
    }

    /// The state of a task that has entered no syscall yet.
    pub open spec fn fresh(tuid: TaskUid) -> SyscallStateView {
        SyscallStateView {
            tuid,
            params: Seq::empty(),
            scratch: 0,
            syscall_entry_registers: Registers::zeroed(SupportedArch::X64),
            expect_errno: 0,
            should_emulate_result: false,
            emulated_result: 0,
            switchable: Switchable::PreventSwitch,
            write_back: WriteBack::NoWriteBack,
            preparation_done: false,
            scratch_enabled: false,
            saved_data: Seq::empty(),
            after_syscall_actions: Seq::empty(),
        }
    }

    /// The parameter that a registration adds, and where allocation goes on
    /// after it.
    pub open spec fn registered(
        scratch: u64,
        dest: u64,
        size: ParamSize,
        mode: ArgMode,
        has_mutator: bool,
        ptr_in_reg: usize,
        ptr_in_memory: u64,
    ) -> (MemoryParam, int) {
        if mode != ArgMode::InOutNoScratch {
            (
                MemoryParam {
                    dest,
                    scratch,
                    num_bytes: size,
                    ptr_in_memory,
                    ptr_in_reg,
                    mode,
                    has_mutator,
                },
                aligned_up(scratch + size.incoming_size, 8),
            )
        } else {
            (
                MemoryParam {
                    dest,
                    scratch: 0,
                    num_bytes: size,
                    ptr_in_memory: 0,
                    ptr_in_reg: 0,
                    mode,
                    has_mutator,
                },
                scratch as int,
            )
        }
    }

    /// How a registration changes the state: nothing if `dest` is 0, else
    /// one parameter more.
    pub open spec fn registration(
        before: SyscallStateView,
        after: SyscallStateView,
        dest: u64,
        size: ParamSize,
        maybe_mode: Option<ArgMode>,
        has_mutator: bool,
        ptr_in_reg: usize,
        ptr_in_memory: u64,
    ) -> bool {
        let mode = if maybe_mode is Some {
            maybe_mode->Some_0
        } else {
            ArgMode::Out
        };
        let added = Self::registered(
            before.scratch,
            dest,
            size,
            mode,
            has_mutator,
            ptr_in_reg,
            ptr_in_memory,
        );
        if dest == 0 {
            after == before
        } else {
            &&& after.scratch == added.1
            &&& after.scratch >= before.scratch
            &&& after == (SyscallStateView {
                params: before.params.push(added.0),
                scratch: after.scratch,
                ..before
            })
        }
    }
}

impl TaskSyscallState {
    pub fn new(tuid: TaskUid) -> (s: TaskSyscallState)
        ensures
            s@ == SyscallStateView::fresh(tuid),
            s@.wf(),
    {
        TaskSyscallState {
            tuid,
            param_list: Vec::new(),
            scratch: 0,
            syscall_entry_registers: Registers::new(SupportedArch::X64),
            expect_errno: 0,
            should_emulate_result: false,
            emulated_result: 0,
            switchable: Switchable::PreventSwitch,
            write_back: WriteBack::NoWriteBack,
            preparation_done: false,
            scratch_enabled: false,
            saved_data: Vec::new(),
            after_syscall_actions: Vec::new(),
        }
    }

    /// Start allocating at the task's scratch buffer, unless the syscall is
    /// already prepared.
    pub fn init(&mut self, t: &RecordTask)
        requires
            old(self).tuid == t.tuid,
        ensures
            final(self)@ == (SyscallStateView {
                scratch: if old(self).preparation_done {
                    old(self).scratch
                } else {
                    t.scratch_ptr
                },
                ..old(self)@
            }),
    {
        if self.preparation_done {
            return ;
        }
        self.scratch = t.scratch_ptr;
    }

    /// Identify a memory parameter of `size` bytes whose address is in
    /// syscall argument `arg`. Returns the address, or 0 if nothing was
    /// registered: because the syscall is already prepared (it is resuming),
    /// or because the address is null.
    pub fn reg_parameter(
        &mut self,
        arg: usize,
        size: usize,
        maybe_mode: Option<ArgMode>,
        has_mutator: bool,
    ) -> (dest: u64)
        requires
            1 <= arg <= 6,
            old(self)@.wf(),
            has_mutator ==> maybe_mode == Some(ArgMode::In),
            old(self).scratch + ParamSize::fixed(size).incoming_size + 7 <= u64::MAX,
        ensures
            final(self)@.wf(),
            dest == if old(self).preparation_done {
                0
            } else {
                old(self).syscall_entry_registers.arg_spec(arg as int)
            },
            SyscallStateView::registration(
                old(self)@,
                final(self)@,
                dest,
                ParamSize::fixed(size),
                maybe_mode,
                has_mutator,
                arg,
                0,
            ),
    {
        self.reg_parameter_with_size(arg, ParamSize::from_size(size), maybe_mode, has_mutator)
    }

    /// Identify a memory parameter of size `param_size` whose address is in
    /// syscall argument `arg`. Returns the address, or 0 if nothing was
    /// registered: because the syscall is already prepared (it is resuming),
    /// or because the address is null.
    pub fn reg_parameter_with_size(
        &mut self,
        arg: usize,
        param_size: ParamSize,
        maybe_mode: Option<ArgMode>,
        has_mutator: bool,
    ) -> (dest: u64)
        requires
            1 <= arg <= 6,
            old(self)@.wf(),
            param_size.wf(),
            has_mutator ==> maybe_mode == Some(ArgMode::In),
            old(self).scratch + param_size.incoming_size + 7 <= u64::MAX,
        ensures
            final(self)@.wf(),
            dest == if old(self).preparation_done {
                0
            } else {
                old(self).syscall_entry_registers.arg_spec(arg as int)
            },
            SyscallStateView::registration(
                old(self)@,
                final(self)@,
                dest,
                param_size,
                maybe_mode,
                has_mutator,
                arg,
                0,
            ),
    {
        if self.preparation_done {
            return 0;
        }
        let dest: u64 = self.syscall_entry_registers.arg(arg);
        self.register(dest, param_size, maybe_mode, has_mutator, arg, 0);
        dest
    }

    /// Identify a memory parameter of `size` bytes whose address the tracee
    /// holds at `addr_of_buf_ptr`, which must lie in a parameter registered
    /// before. Returns the address of the parameter, or 0 if nothing was
    /// registered: because the syscall is already prepared, or because one of
    /// the two addresses is null.
    pub fn mem_ptr_parameter(
        &mut self,
        t: &RecordTask,
        addr_of_buf_ptr: u64,
        size: usize,
        maybe_mode: Option<ArgMode>,
        has_mutator: bool,
    ) -> (dest: u64)
        requires
            old(self).tuid == t.tuid,
            old(self)@.wf(),
            has_mutator ==> maybe_mode == Some(ArgMode::In),
            old(self).scratch + ParamSize::fixed(size).incoming_size + 7 <= u64::MAX,
            !old(self).preparation_done && addr_of_buf_ptr != 0 ==> mem_mapped(
                t.mem@,
                addr_of_buf_ptr as int,
                word_size_spec(t.regs.arch) as int,
            ),
        ensures
            final(self)@.wf(),
            dest == if old(self).preparation_done || addr_of_buf_ptr == 0 {
                0
            } else {
                mem_pointer(t.mem@, addr_of_buf_ptr as int, t.regs.arch)
            },
            SyscallStateView::registration(
                old(self)@,
                final(self)@,
                dest,
                ParamSize::fixed(size),
                maybe_mode,
                has_mutator,
                0,
                addr_of_buf_ptr,
            ),
    {
        self.mem_ptr_parameter_with_size(
            t,
            addr_of_buf_ptr,
            ParamSize::from_size(size),
            maybe_mode,
            has_mutator,
        )
    }

    /// As `mem_ptr_parameter`, for a parameter that holds one value of
    /// `size` bytes.
    pub fn mem_ptr_parameter_inferred(
        &mut self,
        t: &RecordTask,
        addr_of_buf_ptr: u64,
        size: usize,
        maybe_mode: Option<ArgMode>,
        has_mutator: bool,
    ) -> (dest: u64)
        requires
            old(self).tuid == t.tuid,
            old(self)@.wf(),
            has_mutator ==> maybe_mode == Some(ArgMode::In),
            old(self).scratch + ParamSize::fixed(size).incoming_size + 7 <= u64::MAX,
            !old(self).preparation_done && addr_of_buf_ptr != 0 ==> mem_mapped(
                t.mem@,
                addr_of_buf_ptr as int,
                word_size_spec(t.regs.arch) as int,
            ),
        ensures
            final(self)@.wf(),
            dest == if old(self).preparation_done || addr_of_buf_ptr == 0 {
                0
            } else {
                mem_pointer(t.mem@, addr_of_buf_ptr as int, t.regs.arch)
            },
            SyscallStateView::registration(
                old(self)@,
                final(self)@,
                dest,
                ParamSize::fixed(size),
                maybe_mode,
                has_mutator,
                0,
                addr_of_buf_ptr,
            ),
    {
        self.mem_ptr_parameter_with_size(
            t,
            addr_of_buf_ptr,
            ParamSize::from_size(size),
            maybe_mode,
            has_mutator,
        )
    }

    /// Identify a memory parameter of size `param_size` whose address the
    /// tracee holds at `addr_of_buf_ptr`, which must lie in a parameter
    /// registered before. Returns the address of the parameter, or 0 if
    /// nothing was registered: because the syscall is already prepared, or
    /// because one of the two addresses is null.
    pub fn mem_ptr_parameter_with_size(
        &mut self,
        t: &RecordTask,
        addr_of_buf_ptr: u64,
        param_size: ParamSize,
        maybe_mode: Option<ArgMode>,
        has_mutator: bool,
    ) -> (dest: u64)
        requires
            old(self).tuid == t.tuid,
            old(self)@.wf(),
            param_size.wf(),
            has_mutator ==> maybe_mode == Some(ArgMode::In),
            old(self).scratch + param_size.incoming_size + 7 <= u64::MAX,
            !old(self).preparation_done && addr_of_buf_ptr != 0 ==> mem_mapped(
                t.mem@,
                addr_of_buf_ptr as int,
                word_size_spec(t.regs.arch) as int,
            ),
        ensures
            final(self)@.wf(),
            dest == if old(self).preparation_done || addr_of_buf_ptr == 0 {
                0
            } else {
                mem_pointer(t.mem@, addr_of_buf_ptr as int, t.regs.arch)
            },
            SyscallStateView::registration(
                old(self)@,
                final(self)@,
                dest,
                param_size,
                maybe_mode,
                has_mutator,
                0,
                addr_of_buf_ptr,
            ),
    {
        if self.preparation_done || addr_of_buf_ptr == 0 {
            return 0;
        }
        let dest: u64 = get_remote_ptr(t, addr_of_buf_ptr);
        self.register(dest, param_size, maybe_mode, has_mutator, 0, addr_of_buf_ptr);
        dest
    }

    /// Add the parameter at `dest`, unless `dest` is null.
    fn register(
        &mut self,
        dest: u64,
        param_size: ParamSize,
        maybe_mode: Option<ArgMode>,
        has_mutator: bool,
        ptr_in_reg: usize,
        ptr_in_memory: u64,
    )
        requires
            old(self)@.wf(),
            param_size.wf(),
            ptr_in_reg <= 6,
            has_mutator ==> maybe_mode == Some(ArgMode::In),
            old(self).scratch + param_size.incoming_size + 7 <= u64::MAX,
        ensures
            final(self)@.wf(),
            SyscallStateView::registration(
                old(self)@,
                final(self)@,
                dest,
                param_size,
                maybe_mode,
                has_mutator,
                ptr_in_reg,
                ptr_in_memory,
            ),
    {
        let mode = match maybe_mode {
            Some(m) => m,
            None => ArgMode::Out,
        };
        if dest == 0 {
            return ;
        }
        let mut param = MemoryParam {
            dest,
            scratch: 0,
            num_bytes: param_size,
            ptr_in_memory: 0,
            ptr_in_reg: 0,
            mode,
            has_mutator,
        };
        match mode {
            ArgMode::InOutNoScratch => {},
            _ => {
                param.scratch = self.scratch;
                let mut next: u64 = self.scratch + param_size.incoming_size as u64;
                align_scratch(&mut next, None);
                self.scratch = next;
                param.ptr_in_reg = ptr_in_reg;
                param.ptr_in_memory = ptr_in_memory;
            },
        }
        self.param_list.push(param);
        assert(self@.params =~= old(self)@.params.push(param));
        assert forall|i: int| 0 <= i < self@.params.len() implies (
        #[trigger] self@.params[i]).wf() by {
            if i < old(self)@.params.len() {
                assert(old(self)@.params[i].wf());
            }
        }
    }

    /// Have `action` done once the results of the syscall have been
    /// processed, after the actions registered before.
    pub fn after_syscall_action(&mut self, action: AfterSyscallAction)
        ensures
            final(self)@ == (SyscallStateView {
                after_syscall_actions: old(self)@.after_syscall_actions.push(action),
                ..old(self)@
            }),
    {
        self.after_syscall_actions.push(action);
    }

    /// Have the syscall's result replaced by `result` when it exits.
    pub fn emulate_result(&mut self, result: u64)
        requires
            !old(self).preparation_done,
            !old(self).should_emulate_result,
        ensures
            final(self)@ == (SyscallStateView {
                should_emulate_result: true,
                emulated_result: result,
                ..old(self)@
            }),
    {
        self.should_emulate_result = true;
        self.emulated_result = result;
    }

    /// Have the syscall's result replaced by `result` when it exits.
    pub fn emulate_result_signed(&mut self, result: i64)
        requires
            !old(self).preparation_done,
            !old(self).should_emulate_result,
        ensures
            final(self)@ == (SyscallStateView {
                should_emulate_result: true,
                emulated_result: crate::registers::unsigned64(result),
                ..old(self)@
            }),
    {
        self.should_emulate_result = true;
        self.emulated_result = crate::registers::to_unsigned64(result);
    }

    /// Where `ptr`, an address within some parameter's buffer, lies once the
    /// buffer is in scratch memory. `None` unless exactly one parameter's
    /// buffer holds `ptr`.
    pub fn relocate_pointer_to_scratch(&self, ptr: u64) -> (r: Option<u64>)
        ensures
            r is Some <==> relocatable(self.param_list@, ptr) && relocation(self.param_list@, ptr)
                <= u64::MAX,
            r is Some ==> r->Some_0 == relocation(self.param_list@, ptr),
    {
        let mut found: Option<usize> = None;
        let mut i: usize = 0;
        while i < self.param_list.len()
            invariant
                i <= self.param_list.len(),
                match found {
                    Some(w) => w < i && self.param_list@[w as int].contains(ptr) && forall|j: int|
                        0 <= j < i && (#[trigger] self.param_list@[j]).contains(ptr) ==> j == w,
                    None => forall|j: int|
                        0 <= j < i ==> !(#[trigger] self.param_list@[j]).contains(ptr),
                },
            decreases self.param_list.len() - i,
        {
            let p: MemoryParam = self.param_list[i];
            if p.dest <= ptr && ptr - p.dest < p.num_bytes.incoming_size as u64 {
                match found {
                    Some(w) => {
                        proof {
                            assert forall|k: int|
                                !sole_container(self.param_list@, ptr, k) by {
                                if sole_container(self.param_list@, ptr, k) {
                                    assert(self.param_list@[w as int].contains(ptr));
                                    assert(self.param_list@[i as int].contains(ptr));
                                }
                            }
                        }
                        return None;
                    },
                    None => {
                        found = Some(i);
                    },
                }
            }
            i = i + 1;
        }
        match found {
            Some(w) => {
                let p: MemoryParam = self.param_list[w];
                proof {
                    assert(sole_container(self.param_list@, ptr, w as int));
                    let c = choose|c: int| sole_container(self.param_list@, ptr, c);
                    assert(self.param_list@[w as int].contains(ptr));
                    assert(c == w);
                }
                p.scratch.checked_add(ptr - p.dest)
            },
            None => {
                proof {
                    assert forall|k: int| !sole_container(self.param_list@, ptr, k) by {}
                }
                None
            },
        }
    }
}

/// Memory once the first `n` parameters that the kernel reads have been
/// copied to their scratch areas.
pub open spec fn copied_in(params: Seq<MemoryParam>, m: MemImage, n: int) -> MemImage
    decreases n,
{
    if n <= 0 {
        m
    } else {
        let m1 = copied_in(params, m, n - 1);
        let p = params[n - 1];
        if p.is_input() {
            mem_write(
                m1,
                p.scratch as int,
                mem_read(m1, p.dest as int, p.num_bytes.incoming_size as nat),
            )
        } else {
            m1
        }
    }
}

/// Registers once the arguments that point to the first `n` parameters point
/// to their scratch areas.
pub open spec fn redirected_regs(params: Seq<MemoryParam>, regs: Registers, n: int) -> Registers
    decreases n,
{
    if n <= 0 {
        regs
    } else {
        let r = redirected_regs(params, regs, n - 1);
        let p = params[n - 1];
        if p.ptr_in_reg != 0 {
            r.with_arg(p.ptr_in_reg as int, p.scratch)
        } else {
            r
        }
    }
}

/// Memory once the pointers in memory to the first `n` parameters point to
/// their scratch areas. The pointers themselves are written where they lie
/// in scratch memory.
pub open spec fn redirected_pointers(
    params: Seq<MemoryParam>,
    arch: SupportedArch,
    m: MemImage,
    n: int,
) -> MemImage
    decreases n,
{
    if n <= 0 {
        m
    } else {
        let m1 = redirected_pointers(params, arch, m, n - 1);
        let p = params[n - 1];
        if p.ptr_in_memory != 0 {
            mem_write(m1, relocation(params, p.ptr_in_memory), pointer_bytes(arch, p.scratch))
        } else {
            m1
        }
    }
}

/// The parameters with every size cell moved to where it lies in scratch
/// memory.
pub open spec fn with_relocated_sizes(params: Seq<MemoryParam>) -> Seq<MemoryParam> {
    Seq::new(
        params.len(),
        |i: int|
            if params[i].num_bytes.mem_ptr != 0 {
                MemoryParam {
                    num_bytes: ParamSize {
                        mem_ptr: relocation(params, params[i].num_bytes.mem_ptr) as u64,
                        ..params[i].num_bytes
                    },
                    ..params[i]
                }
            } else {
                params[i]
            },
    )
}

/// What the recorder wants the kernel to read in place of each parameter
/// that has a mutator: the replacement bytes, or `None` to leave the
/// parameter as it is.
pub open spec fn decisions_fit(
    params: Seq<MemoryParam>,
    decisions: Seq<Option<Vec<u8>>>,
) -> bool {
    forall|i: int|
        0 <= i < params.len() && (#[trigger] params[i]).has_mutator ==> i < decisions.len() && (
        decisions[i] is Some ==> decisions[i]->Some_0@.len()
            == params[i].num_bytes.incoming_size)
}

/// Where parameter `p` is changed: in scratch memory if that is on, else in
/// place.
pub open spec fn mutation_target(p: MemoryParam, scratch_enabled: bool) -> u64 {
    if scratch_enabled {
        p.scratch
    } else {
        p.dest
    }
}

/// Memory and saved originals once the mutators of the first `n`
/// parameters have run. A parameter changed in place has its original
/// contents appended to the saved data.
pub open spec fn mutated(
    params: Seq<MemoryParam>,
    scratch_enabled: bool,
    decisions: Seq<Option<Vec<u8>>>,
    m: MemImage,
    saved: Seq<u8>,
    n: int,
) -> (MemImage, Seq<u8>)
    decreases n,
{
    if n <= 0 {
        (m, saved)
    } else {
        let (m1, s1) = mutated(params, scratch_enabled, decisions, m, saved, n - 1);
        let p = params[n - 1];
        if p.has_mutator && decisions[n - 1] is Some {
            let target = mutation_target(p, scratch_enabled);
            (
                mem_write(m1, target as int, decisions[n - 1]->Some_0@),
                if scratch_enabled {
                    s1
                } else {
                    s1 + mem_read(m1, p.dest as int, p.num_bytes.incoming_size as nat)
                },
            )
        } else {
            (m1, s1)
        }
    }
}

/// The parameters once the mutators have run: a mutator that changed
/// nothing is forgotten.
pub open spec fn after_mutators(
    params: Seq<MemoryParam>,
    decisions: Seq<Option<Vec<u8>>>,
) -> Seq<MemoryParam> {
    Seq::new(
        params.len(),
        |i: int|
            MemoryParam {
                has_mutator: params[i].has_mutator && decisions[i] is Some,
                ..params[i]
            },
    )
}

impl SyscallStateView {
    /// Whether `done_preparing` turns scratch memory on: the task has a
    /// scratch buffer, switching is asked for, the parameters fit the usable
    /// part of the buffer, and there is a parameter at all.
    pub open spec fn will_enable_scratch(self, t: RecordTaskView, sw: Switchable) -> bool {
        &&& t.scratch_ptr != 0
        &&& sw == Switchable::AllowSwitch
        &&& self.scratch - t.scratch_ptr <= t.usable_scratch_size
        &&& self.params.len() > 0
    }

    /// What `done_preparing` makes of the request `sw`: switching is
    /// refused where the parameters do not fit the usable scratch buffer.
    pub open spec fn granted(self, t: RecordTaskView, sw: Switchable) -> Switchable {
        if t.scratch_ptr != 0 && sw == Switchable::AllowSwitch && self.scratch - t.scratch_ptr
            > t.usable_scratch_size {
            Switchable::PreventSwitch
        } else {
            sw
        }
    }

    /// Every parameter that the kernel reads is mapped, and so is its
    /// scratch area.
    pub open spec fn inputs_mapped(self, t: RecordTaskView) -> bool {
        let params = self.params;
        forall|i: int|
            0 <= i < params.len() && (#[trigger] params[i]).is_input() ==> mem_mapped(
                t.mem,
                params[i].dest as int,
                params[i].num_bytes.incoming_size as int,
            ) && mem_mapped(
                t.mem,
                params[i].scratch as int,
                params[i].num_bytes.incoming_size as int,
            )
    }

    /// Every pointer in memory to a parameter lies in exactly one
    /// parameter, and is mapped where it lies in scratch memory.
    pub open spec fn pointers_movable(self, t: RecordTaskView) -> bool {
        let params = self.params;
        forall|i: int|
            0 <= i < params.len() && (#[trigger] params[i]).ptr_in_memory != 0 ==> relocatable(
                params,
                params[i].ptr_in_memory,
            ) && relocation(params, params[i].ptr_in_memory) <= u64::MAX && mem_mapped(
                t.mem,
                relocation(params, params[i].ptr_in_memory),
                word_size_spec(t.regs.arch) as int,
            )
    }

    /// Every size cell lies in exactly one parameter.
    pub open spec fn size_cells_movable(self) -> bool {
        let params = self.params;
        forall|i: int|
            0 <= i < params.len() && (#[trigger] params[i]).num_bytes.mem_ptr != 0 ==> relocatable(
                params,
                params[i].num_bytes.mem_ptr,
            ) && relocation(params, params[i].num_bytes.mem_ptr) <= u64::MAX
    }

    /// The memory that the scratch setup reads and writes is mapped, and
    /// every pointer that has to move lies in exactly one parameter.
    pub open spec fn scratch_setup_ok(self, t: RecordTaskView) -> bool {
        self.inputs_mapped(t) && self.pointers_movable(t) && self.size_cells_movable()
    }

    /// The decisions fit the parameters, and the memory in which they are
    /// carried out is mapped.
    pub open spec fn decisions_ready(
        self,
        t: RecordTaskView,
        scratch_enabled: bool,
        decisions: Seq<Option<Vec<u8>>>,
    ) -> bool {
        let params = self.params;
        &&& decisions_fit(params, decisions)
        &&& forall|i: int|
            0 <= i < params.len() && (#[trigger] params[i]).has_mutator && decisions[i] is Some
                ==> mem_mapped(
                t.mem,
                mutation_target(params[i], scratch_enabled) as int,
                params[i].num_bytes.incoming_size as int,
            )
    }

    /// What `done_preparing_internal` needs.
    pub open spec fn can_prepare(self, t: RecordTaskView, sw: Switchable) -> bool {
        &&& self.wf()
        &&& self.tuid == t.tuid
        &&& !self.preparation_done
        &&& t.scratch_ptr != 0 ==> self.scratch >= t.scratch_ptr
        &&& self.will_enable_scratch(t, sw) ==> self.scratch_setup_ok(t)
    }
}

impl TaskSyscallState {
    /// Set up scratch memory, if it is to be used. Returns whether the task
    /// may be switched out.
    ///
    /// With scratch memory on, each parameter that the kernel reads is copied
    /// to its scratch area; then every syscall argument and every pointer in
    /// memory that points to a parameter is made to point to its scratch
    /// area, and every size cell is looked for in scratch memory from now on.
    pub fn done_preparing_internal(&mut self, t: &mut RecordTask, sw: Switchable) -> (r:
        Switchable)
        requires
            old(self)@.can_prepare(old(t)@, sw),
        ensures
            r == old(self)@.granted(old(t)@, sw),
            final(self)@.wf(),
            final(self)@ == (SyscallStateView {
                preparation_done: true,
                write_back: WriteBack::WriteBack,
                switchable: r,
                scratch_enabled: old(self).scratch_enabled || old(self)@.will_enable_scratch(
                    old(t)@,
                    sw,
                ),
                params: final(self)@.params,
                ..old(self)@
            }),
            final(t)@ == (RecordTaskView { mem: final(t)@.mem, regs: final(t)@.regs, ..old(t)@ }),
            final(t).mem@.mapped == old(t).mem@.mapped,
            old(self)@.will_enable_scratch(old(t)@, sw) ==> {
                &&& final(self).param_list@ == with_relocated_sizes(old(self).param_list@)
                &&& final(t).regs == redirected_regs(
                    old(self).param_list@,
                    old(t).regs,
                    old(self).param_list@.len() as int,
                )
                &&& final(t).mem@ == redirected_pointers(
                    old(self).param_list@,
                    old(t).regs.arch,
                    copied_in(
                        old(self).param_list@,
                        old(t).mem@,
                        old(self).param_list@.len() as int,
                    ),
                    old(self).param_list@.len() as int,
                )
            },
            !old(self)@.will_enable_scratch(old(t)@, sw) ==> {
                &&& final(self).param_list@ == old(self).param_list@
                &&& final(t).regs == old(t).regs
                &&& final(t).mem@ == old(t).mem@
            },
    {
        self.preparation_done = true;
        self.write_back = WriteBack::WriteBack;
        self.switchable = sw;
        if t.scratch_ptr == 0 {
            assert(self@.params == old(self)@.params);
            assert(old(self)@.wf());
            assert(self@.wf());
            return self.switchable;
        }
        match sw {
            Switchable::AllowSwitch => {
                if self.scratch - t.scratch_ptr > t.usable_scratch_size as u64 {
                    self.switchable = Switchable::PreventSwitch;
                }
            },
            Switchable::PreventSwitch => {},
        }
        assert(self@.params == old(self)@.params);
        assert(self@.wf());
        match self.switchable {
            Switchable::PreventSwitch => {
                return self.switchable;
            },
            Switchable::AllowSwitch => {},
        }
        if self.param_list.len() == 0 {
            return self.switchable;
        }
        self.scratch_enabled = true;
        let n: usize = self.param_list.len();
        let ghost params = self.param_list@;
        let arch = t.arch();

        // Step 1: copy what the kernel reads to scratch memory.
        let mut i: usize = 0;
        while i < n
            invariant
                i <= n,
                n == params.len(),
                self.param_list@ == params,
                old(self).param_list@ == params,
                old(self)@.scratch_setup_ok(old(t)@),
                t.mem@.mapped == old(t).mem@.mapped,
                t.mem@ == copied_in(params, old(t).mem@, i as int),
                t@ == (RecordTaskView { mem: t@.mem, ..old(t)@ }),
            decreases n - i,
        {
            let p: MemoryParam = self.param_list[i];
            match p.mode {
                ArgMode::In | ArgMode::InOut => {
                    assert(params[i as int].is_input());
                    let buf = t.mem.read_bytes(p.dest, p.num_bytes.incoming_size).unwrap();
                    let ok = t.mem.write_bytes(p.scratch, &buf);
                    assert(ok);
                },
                _ => {},
            }
            i = i + 1;
        }

        // Step 2: point registers and memory to scratch memory.
        let mut r: Registers = t.regs;
        let mut relocated: Vec<MemoryParam> = Vec::new();
        let ghost m1 = t.mem@;
        let mut k: usize = 0;
        while k < n
            invariant
                k <= n,
                n == params.len(),
                self.param_list@ == params,
                old(self).param_list@ == params,
                old(self)@.wf(),
                old(self)@.scratch_setup_ok(old(t)@),
                arch == old(t).regs.arch,
                t.mem@.mapped == old(t).mem@.mapped,
                t.mem@ == redirected_pointers(params, arch, m1, k as int),
                r == redirected_regs(params, old(t).regs, k as int),
                t@ == (RecordTaskView { mem: t@.mem, ..old(t)@ }),
                relocated@ == with_relocated_sizes(params).take(k as int),
            decreases n - k,
        {
            let mut p: MemoryParam = self.param_list[k];
            assert(params[k as int].wf());
            if p.ptr_in_reg != 0 {
                r.set_arg(p.ptr_in_reg, p.scratch);
            }
            if p.ptr_in_memory != 0 {
                assert(params[k as int].ptr_in_memory != 0);
                let at = self.relocate_pointer_to_scratch(p.ptr_in_memory).unwrap();
                set_remote_ptr(t, at, p.scratch);
            }
            if p.num_bytes.mem_ptr != 0 {
                assert(params[k as int].num_bytes.mem_ptr != 0);
                let at = self.relocate_pointer_to_scratch(p.num_bytes.mem_ptr).unwrap();
                p.num_bytes.mem_ptr = at;
            }
            relocated.push(p);
            k = k + 1;
            assert(relocated@ =~= with_relocated_sizes(params).take(k as int));
        }
        assert(relocated@ =~= with_relocated_sizes(params));
        self.param_list = relocated;
        t.regs = r;
        assert forall|j: int| 0 <= j < self.param_list@.len() implies (
        #[trigger] self.param_list@[j]).wf() by {
            assert(params[j].wf());
        }
        self.switchable
    }
}

/// The numbers of a sequence of sizes.
pub open spec fn as_ints(v: Seq<usize>) -> Seq<int> {
    Seq::new(v.len(), |i: int| v[i] as int)
}

/// How much the first `n` parameters have taken from the source of
/// parameter `i`'s size.
pub open spec fn consumed_before(params: Seq<MemoryParam>, sizes: Seq<int>, i: int, n: int) -> int
    decreases n,
{
    if n <= 0 {
        0
    } else {
        consumed_before(params, sizes, i, n - 1) + if params[n - 1].num_bytes.is_same_source_spec(
            params[i].num_bytes,
        ) {
            sizes[n - 1]
        } else {
            0
        }
    }
}

/// The sizes of the first `n` parameters after the syscall, each evaluated
/// with what the parameters before it took from its source.
pub open spec fn actual_sizes(params: Seq<MemoryParam>, m: MemImage, regs: Registers, n: int)
    -> Seq<int>
    decreases n,
{
    if n <= 0 {
        Seq::empty()
    } else {
        let s = actual_sizes(params, m, regs, n - 1);
        s.push(
            params[n - 1].num_bytes.eval_spec(m, regs, consumed_before(params, s, n - 1, n - 1)),
        )
    }
}

/// Memory once the outputs of the first `n` parameters have been copied
/// from `data`, the contents of the scratch buffer from `base` on, to where
/// the tracee wanted them.
pub open spec fn copied_back(
    params: Seq<MemoryParam>,
    sizes: Seq<int>,
    data: Seq<u8>,
    base: int,
    m: MemImage,
    n: int,
) -> MemImage
    decreases n,
{
    if n <= 0 {
        m
    } else {
        let m1 = copied_back(params, sizes, data, base, m, n - 1);
        let p = params[n - 1];
        if p.is_output() {
            mem_write(
                m1,
                p.dest as int,
                data.subrange(p.scratch - base, p.scratch - base + sizes[n - 1]),
            )
        } else {
            m1
        }
    }
}

/// Registers once the arguments that point to the first `n` parameters
/// point to where the tracee had them point.
pub open spec fn restored_regs(params: Seq<MemoryParam>, regs: Registers, n: int) -> Registers
    decreases n,
{
    if n <= 0 {
        regs
    } else {
        let r = restored_regs(params, regs, n - 1);
        let p = params[n - 1];
        if p.ptr_in_reg != 0 {
            r.with_arg(p.ptr_in_reg as int, p.dest)
        } else {
            r
        }
    }
}

/// Memory once the pointers in memory to the first `n` parameters point to
/// where the tracee had them point.
pub open spec fn restored_pointers(
    params: Seq<MemoryParam>,
    arch: SupportedArch,
    m: MemImage,
    n: int,
) -> MemImage
    decreases n,
{
    if n <= 0 {
        m
    } else {
        let m1 = restored_pointers(params, arch, m, n - 1);
        let p = params[n - 1];
        if p.ptr_in_memory != 0 {
            mem_write(m1, p.ptr_in_memory as int, pointer_bytes(arch, p.dest))
        } else {
            m1
        }
    }
}

/// Some parameter is pointed to from memory.
pub open spec fn has_pointer_in_memory(params: Seq<MemoryParam>, n: int) -> bool {
    exists|i: int| 0 <= i < n && (#[trigger] params[i]).ptr_in_memory != 0
}

/// What is recorded of the first `n` parameters when scratch memory is on:
/// every parameter the kernel writes, with its actual size. A parameter is
/// recorded from `data`, the scratch buffer's contents, unless it never was
/// in scratch memory or `from_memory` says that pointers were restored in
/// memory `m`.
pub open spec fn scratch_records(
    params: Seq<MemoryParam>,
    sizes: Seq<int>,
    data: Seq<u8>,
    base: int,
    m: MemImage,
    from_memory: bool,
    n: int,
) -> Seq<RecordedView>
    decreases n,
{
    if n <= 0 {
        Seq::empty()
    } else {
        let r = scratch_records(params, sizes, data, base, m, from_memory, n - 1);
        let p = params[n - 1];
        let size = sizes[n - 1];
        if p.mode == ArgMode::InOutNoScratch || (p.is_output() && from_memory) {
            r.push(RecordedView { addr: p.dest, data: mem_read(m, p.dest as int, size as nat) })
        } else if p.is_output() {
            r.push(
                RecordedView {
                    addr: p.dest,
                    data: data.subrange(p.scratch - base, p.scratch - base + size),
                },
            )
        } else {
            r
        }
    }
}

/// What is recorded of the first `n` parameters when scratch memory is off:
/// each parameter, with its actual size, from memory.
pub open spec fn direct_records(
    params: Seq<MemoryParam>,
    sizes: Seq<int>,
    m: MemImage,
    n: int,
) -> Seq<RecordedView>
    decreases n,
{
    if n <= 0 {
        Seq::empty()
    } else {
        direct_records(params, sizes, m, n - 1).push(
            RecordedView {
                addr: params[n - 1].dest,
                data: mem_read(m, params[n - 1].dest as int, sizes[n - 1] as nat),
            },
        )
    }
}

/// How many bytes of saved originals the first `n` parameters account for.
pub open spec fn saved_total(params: Seq<MemoryParam>, n: int) -> int
    decreases n,
{
    if n <= 0 {
        0
    } else {
        saved_total(params, n - 1) + if params[n - 1].has_mutator {
            params[n - 1].num_bytes.incoming_size as int
        } else {
            0
        }
    }
}

/// Memory once the first `n` parameters that were changed in place have
/// their original contents back, taken from `saved` in order.
pub open spec fn unmutated(params: Seq<MemoryParam>, saved: Seq<u8>, m: MemImage, n: int)
    -> MemImage
    decreases n,
{
    if n <= 0 {
        m
    } else {
        let m1 = unmutated(params, saved, m, n - 1);
        let p = params[n - 1];
        if p.has_mutator {
            mem_write(
                m1,
                p.dest as int,
                saved.subrange(
                    saved_total(params, n - 1),
                    saved_total(params, n - 1) + p.num_bytes.incoming_size,
                ),
            )
        } else {
            m1
        }
    }
}

/// A copy of `v[from..from + len]`.
pub fn copy_range(v: &Vec<u8>, from: usize, len: usize) -> (r: Vec<u8>)
    requires
        from + len <= v.len(),
    ensures
        r@ == v@.subrange(from as int, from + len),
{
    let mut out: Vec<u8> = Vec::new();
    let mut i: usize = 0;
    while i < len
        invariant
            i <= len,
            from + len <= v.len(),
            out@ == v@.subrange(from as int, from + i),
        decreases len - i,
    {
        out.push(v[from + i]);
        i = i + 1;
        assert(out@ =~= v@.subrange(from as int, from + i));
    }
    out
}

impl SyscallStateView {
    /// Every size cell is mapped in `m`.
    pub open spec fn sizes_readable(self, m: MemImage) -> bool {
        forall|i: int|
            0 <= i < self.params.len() ==> (#[trigger] self.params[i]).num_bytes.readable(
                m,
            )
    }

    /// The parameter's scratch area lies within the scratch buffer as far
    /// as it has been given out.
    pub open spec fn slot_in(self, p: MemoryParam, t: RecordTaskView) -> bool {
        t.scratch_ptr <= p.scratch && p.scratch + p.num_bytes.incoming_size <= self.scratch
    }

    /// The sizes that `process_syscall_results` records with.
    pub open spec fn result_sizes(self, t: RecordTaskView) -> Seq<int> {
        let n = self.params.len() as int;
        if self.scratch_enabled {
            actual_sizes(self.params, t.mem, t.regs, n)
        } else {
            actual_sizes(
                self.params,
                unmutated(self.params, self.saved_data, t.mem, n),
                t.regs,
                n,
            )
        }
    }

    /// The contents of the scratch buffer as far as it has been given out.
    pub open spec fn scratch_contents(self, t: RecordTaskView) -> Seq<u8> {
        mem_read(t.mem, t.scratch_ptr as int, (self.scratch - t.scratch_ptr) as nat)
    }

    /// What `process_syscall_results` needs: the syscall was prepared, and
    /// the memory to read and write is mapped.
    pub open spec fn can_process(self, t: RecordTaskView) -> bool {
        let params = self.params;
        let n = params.len() as int;
        let m = t.mem;
        let sizes = self.result_sizes(t);
        let copying = self.write_back == WriteBack::WriteBack;
        &&& self.wf()
        &&& self.tuid == t.tuid
        &&& self.preparation_done
        &&& self.sizes_readable(m)
        &&& if self.scratch_enabled {
            &&& t.scratch_ptr <= self.scratch
            &&& self.scratch - t.scratch_ptr <= usize::MAX
            &&& mem_mapped(m, t.scratch_ptr as int, self.scratch - t.scratch_ptr)
            &&& forall|i: int|
                0 <= i < n && copying && (#[trigger] params[i]).is_output() ==> self.slot_in(
                    params[i],
                    t,
                ) && mem_mapped(m, params[i].dest as int, sizes[i])
            &&& forall|i: int|
                0 <= i < n && (#[trigger] params[i]).ptr_in_memory != 0 ==> mem_mapped(
                    m,
                    params[i].ptr_in_memory as int,
                    word_size_spec(t.regs.arch) as int,
                )
            &&& forall|i: int|
                0 <= i < n && copying && (#[trigger] params[i]).mode == ArgMode::InOutNoScratch
                    ==> mem_mapped(m, params[i].dest as int, sizes[i])
        } else {
            &&& self.saved_data.len() == saved_total(params, n)
            &&& forall|i: int|
                0 <= i < n && (#[trigger] params[i]).has_mutator ==> mem_mapped(
                    m,
                    params[i].dest as int,
                    params[i].num_bytes.incoming_size as int,
                )
            &&& forall|i: int|
                0 <= i < n ==> mem_mapped(m, (#[trigger] params[i]).dest as int, sizes[i])
        }
    }

    /// Tracee memory after `process_syscall_results`.
    pub open spec fn processed_memory(self, t: RecordTaskView) -> MemImage {
        let params = self.params;
        let n = params.len() as int;
        if self.scratch_enabled {
            let copied = if self.write_back == WriteBack::WriteBack {
                copied_back(
                    params,
                    self.result_sizes(t),
                    self.scratch_contents(t),
                    t.scratch_ptr as int,
                    t.mem,
                    n,
                )
            } else {
                t.mem
            };
            restored_pointers(params, t.regs.arch, copied, n)
        } else {
            unmutated(params, self.saved_data, t.mem, n)
        }
    }

    /// The task's registers after `process_syscall_results`.
    pub open spec fn processed_regs(self, t: RecordTaskView) -> Registers {
        let r = if self.scratch_enabled {
            restored_regs(self.params, t.regs, self.params.len() as int)
        } else {
            t.regs
        };
        if self.should_emulate_result {
            Registers { ax: crate::registers::fit(r.arch, self.emulated_result), ..r }
        } else {
            r
        }
    }

    /// What `process_syscall_results` adds to the trace.
    pub open spec fn processed_records(self, t: RecordTaskView) -> Seq<RecordedView> {
        let params = self.params;
        let n = params.len() as int;
        if self.scratch_enabled {
            if self.write_back == WriteBack::WriteBack {
                scratch_records(
                    params,
                    self.result_sizes(t),
                    self.scratch_contents(t),
                    t.scratch_ptr as int,
                    self.processed_memory(t),
                    has_pointer_in_memory(params, n),
                    n,
                )
            } else {
                Seq::empty()
            }
        } else {
            direct_records(params, self.result_sizes(t), self.processed_memory(t), n)
        }
    }
}

impl TaskSyscallState {
    /// The size of parameter `i` after the syscall, given in `actual_sizes`
    /// the sizes of the parameters before it. The size is appended to
    /// `actual_sizes`.
    pub fn eval_param_size(&self, t: &RecordTask, i: usize, actual_sizes: &mut Vec<usize>) -> (size:
        usize)
        requires
            self@.wf(),
            self.tuid == t.tuid,
            i < self.param_list@.len(),
            old(actual_sizes)@.len() == i,
            self.param_list@[i as int].num_bytes.readable(t.mem@),
        ensures
            final(actual_sizes)@ == old(actual_sizes)@.push(size),
            size == self.param_list@[i as int].num_bytes.eval_spec(
                t.mem@,
                t.regs,
                consumed_before(self.param_list@, as_ints(old(actual_sizes)@), i as int, i as int),
            ),
            size <= self.param_list@[i as int].num_bytes.incoming_size,
    {
        let ghost sizes = as_ints(actual_sizes@);
        let mut already_consumed: u64 = 0;
        let mut j: usize = 0;
        while j < i
            invariant
                j <= i,
                i < self.param_list@.len(),
                actual_sizes@.len() == i,
                sizes == as_ints(actual_sizes@),
                already_consumed == crate::param_size::min_int(
                    consumed_before(self.param_list@, sizes, i as int, j as int),
                    u64::MAX as int,
                ),
                consumed_before(self.param_list@, sizes, i as int, j as int) >= 0,
            decreases i - j,
        {
            if self.param_list[j].num_bytes.is_same_source(&self.param_list[i].num_bytes) {
                let x: u64 = actual_sizes[j] as u64;
                assert(sizes[j as int] == x);
                if already_consumed > u64::MAX - x {
                    already_consumed = u64::MAX;
                } else {
                    already_consumed = already_consumed + x;
                }
            }
            j = j + 1;
        }
        proof {
            assert(self@.params[i as int].wf());
            if consumed_before(self.param_list@, sizes, i as int, i as int) >= u64::MAX {
                crate::param_size::lemma_eval_saturates(
                    self.param_list@[i as int].num_bytes,
                    t.mem@,
                    t.regs,
                    consumed_before(self.param_list@, sizes, i as int, i as int),
                );
            }
        }
        let size: usize = self.param_list[i].num_bytes.eval(t, already_consumed);
        actual_sizes.push(size);
        size
    }

    /// The sizes of all parameters after the syscall.
    pub fn evaluate_sizes(&self, t: &RecordTask) -> (sizes: Vec<usize>)
        requires
            self@.wf(),
            self.tuid == t.tuid,
            self@.sizes_readable(t.mem@),
        ensures
            sizes@.len() == self.param_list@.len(),
            as_ints(sizes@) == actual_sizes(
                self.param_list@,
                t.mem@,
                t.regs,
                self.param_list@.len() as int,
            ),
            forall|i: int|
                0 <= i < sizes@.len() ==> (#[trigger] sizes@[i])
                    <= self.param_list@[i].num_bytes.incoming_size,
    {
        let mut sizes: Vec<usize> = Vec::new();
        let mut i: usize = 0;
        assert(as_ints(sizes@) =~= actual_sizes(self.param_list@, t.mem@, t.regs, 0));
        while i < self.param_list.len()
            invariant
                i <= self.param_list@.len(),
                self@.wf(),
                self.tuid == t.tuid,
                self@.sizes_readable(t.mem@),
                sizes@.len() == i,
                as_ints(sizes@) == actual_sizes(self.param_list@, t.mem@, t.regs, i as int),
                forall|k: int|
                    0 <= k < sizes@.len() ==> (#[trigger] sizes@[k])
                        <= self.param_list@[k].num_bytes.incoming_size,
            decreases self.param_list@.len() - i,
        {
            assert(self.param_list@[i as int].num_bytes.readable(t.mem@));
            let ghost before = sizes@;
            let size = self.eval_param_size(t, i, &mut sizes);
            i = i + 1;
            assert(as_ints(sizes@) =~= as_ints(before).push(size as int));
        }
        sizes
    }

    /// Called when the syscall exits.
    ///
    /// With scratch memory on: the outputs are copied from scratch memory to
    /// where the tracee wanted them, the syscall arguments and the pointers
    /// in memory get their old values back, and every output is recorded.
    /// With scratch memory off: the parameters that were changed in place get
    /// their contents back, and every parameter is recorded from memory.
    /// Either way the syscall's result is then replaced if that was asked
    /// for. Returns the actions that were registered to be done after the
    /// syscall, in the order of their registration: the caller does each
    /// once, in that order, now that the result register is final.
    pub fn process_syscall_results(&mut self, t: &mut RecordTask) -> (actions: Vec<
        AfterSyscallAction,
    >)
        requires
            old(self)@.can_process(old(t)@),
        ensures
            actions@ == old(self)@.after_syscall_actions,
            final(t).mem@ == old(self)@.processed_memory(old(t)@),
            final(t).mem@.mapped == old(t).mem@.mapped,
            final(t).regs == old(self)@.processed_regs(old(t)@),
            final(t)@.trace == old(t)@.trace + old(self)@.processed_records(old(t)@),
            final(t)@ == (RecordTaskView {
                mem: final(t)@.mem,
                regs: final(t)@.regs,
                trace: final(t)@.trace,
                ..old(t)@
            }),
            final(self).saved_data@.len() == if old(self).scratch_enabled {
                old(self).saved_data@.len()
            } else {
                0
            },
            final(self)@ == (SyscallStateView {
                saved_data: final(self)@.saved_data,
                ..old(self)@
            }),
            old(self).scratch_enabled ==> final(self).saved_data@ == old(self).saved_data@,
    {
        self.copy_back_and_record(t);
        self.after_syscall_actions.clone()
    }

    /// Copy the outputs back, put back what was changed, record, and
    /// replace the result, as `process_syscall_results` says.
    fn copy_back_and_record(&mut self, t: &mut RecordTask)
        requires
            old(self)@.can_process(old(t)@),
        ensures
            final(t).mem@ == old(self)@.processed_memory(old(t)@),
            final(t).mem@.mapped == old(t).mem@.mapped,
            final(t).regs == old(self)@.processed_regs(old(t)@),
            final(t)@.trace == old(t)@.trace + old(self)@.processed_records(old(t)@),
            final(t)@ == (RecordTaskView {
                mem: final(t)@.mem,
                regs: final(t)@.regs,
                trace: final(t)@.trace,
                ..old(t)@
            }),
            final(self).saved_data@.len() == if old(self).scratch_enabled {
                old(self).saved_data@.len()
            } else {
                0
            },
            final(self)@ == (SyscallStateView {
                saved_data: final(self)@.saved_data,
                ..old(self)@
            }),
            old(self).scratch_enabled ==> final(self).saved_data@ == old(self).saved_data@,
    {
        let n: usize = self.param_list.len();
        let ghost params = self.param_list@;
        let ghost m0 = t.mem@;
        let ghost trace0 = crate::record_task::trace_views(t.trace@);
        let arch = t.arch();
        if self.scratch_enabled {
            let scratch_num_bytes: usize = (self.scratch - t.scratch_ptr) as usize;
            let base: u64 = t.scratch_ptr;
            let data = t.mem.read_bytes(base, scratch_num_bytes).unwrap();
            let sizes = self.evaluate_sizes(t);
            let ghost isizes = as_ints(sizes@);
            let copying = match self.write_back {
                WriteBack::WriteBack => true,
                WriteBack::NoWriteBack => false,
            };
            // Step 1: copy outputs from scratch memory back to their origin.
            let mut i: usize = 0;
            while i < n
                invariant
                    i <= n,
                    n == params.len(),
                    sizes@.len() == n,
                    isizes == as_ints(sizes@),
                    isizes == old(self)@.result_sizes(old(t)@),
                    self.param_list@ == params,
                    *self == *old(self),
                    old(self)@.can_process(old(t)@),
                    old(self).scratch_enabled,
                    copying == (self.write_back == WriteBack::WriteBack),
                    base == old(t).scratch_ptr,
                    data@ == old(self)@.scratch_contents(old(t)@),
                    forall|k: int|
                        0 <= k < sizes@.len() ==> (#[trigger] sizes@[k])
                            <= params[k].num_bytes.incoming_size,
                    t.mem@.mapped == m0.mapped,
                    m0 == old(t).mem@,
                    t.mem@ == if copying {
                        copied_back(params, isizes, data@, base as int, m0, i as int)
                    } else {
                        m0
                    },
                    t@ == (RecordTaskView { mem: t@.mem, ..old(t)@ }),
                decreases n - i,
            {
                let p: MemoryParam = self.param_list[i];
                let size: usize = sizes[i];
                assert(isizes[i as int] == size);
                let is_output = match p.mode {
                    ArgMode::InOut | ArgMode::Out => true,
                    _ => false,
                };
                if copying && is_output {
                    assert(params[i as int].is_output());
                    let offset: usize = (p.scratch - base) as usize;
                    let d = copy_range(&data, offset, size);
                    let ok = t.mem.write_bytes(p.dest, &d);
                    assert(ok);
                }
                i = i + 1;
            }
            // Step 2: restore registers and pointers in memory.
            let mut r: Registers = t.regs;
            let mut memory_cleaned_up: bool = false;
            let ghost m1 = t.mem@;
            let mut k: usize = 0;
            while k < n
                invariant
                    k <= n,
                    n == params.len(),
                    self.param_list@ == params,
                    *self == *old(self),
                    old(self)@.can_process(old(t)@),
                    old(self).scratch_enabled,
                    arch == old(t).regs.arch,
                    t.mem@.mapped == m0.mapped,
                    m0 == old(t).mem@,
                    t.mem@ == restored_pointers(params, arch, m1, k as int),
                    r == restored_regs(params, old(t).regs, k as int),
                    memory_cleaned_up == has_pointer_in_memory(params, k as int),
                    t@ == (RecordTaskView { mem: t@.mem, ..old(t)@ }),
                decreases n - k,
            {
                let p: MemoryParam = self.param_list[k];
                assert(params[k as int].wf());
                if p.ptr_in_reg > 0 {
                    r.set_arg(p.ptr_in_reg, p.dest);
                }
                if p.ptr_in_memory != 0 {
                    assert(params[k as int].ptr_in_memory != 0);
                    memory_cleaned_up = true;
                    set_remote_ptr(t, p.ptr_in_memory, p.dest);
                }
                k = k + 1;
            }
            if copying {
                // Step 3: record all output memory areas.
                let ghost m2 = t.mem@;
                let mut j: usize = 0;
                while j < n
                    invariant
                        j <= n,
                        n == params.len(),
                        sizes@.len() == n,
                        isizes == as_ints(sizes@),
                        isizes == old(self)@.result_sizes(old(t)@),
                        self.param_list@ == params,
                        *self == *old(self),
                        old(self)@.can_process(old(t)@),
                        old(self).scratch_enabled,
                        old(self).write_back == WriteBack::WriteBack,
                        base == old(t).scratch_ptr,
                        data@ == old(self)@.scratch_contents(old(t)@),
                        forall|k: int|
                            0 <= k < sizes@.len() ==> (#[trigger] sizes@[k])
                                <= params[k].num_bytes.incoming_size,
                        t.mem@ == m2,
                        m2.mapped == old(t).mem@.mapped,
                        crate::record_task::trace_views(t.trace@) == trace0 + scratch_records(
                            params,
                            isizes,
                            data@,
                            base as int,
                            m2,
                            memory_cleaned_up,
                            j as int,
                        ),
                        t@ == (RecordTaskView { mem: t@.mem, trace: t@.trace, ..old(t)@ }),
                    decreases n - j,
                {
                    let p: MemoryParam = self.param_list[j];
                    let size: usize = sizes[j];
                    assert(isizes[j as int] == size);
                    let ghost before = crate::record_task::trace_views(t.trace@);
                    match p.mode {
                        ArgMode::InOutNoScratch => {
                            assert(params[j as int].mode == ArgMode::InOutNoScratch);
                            t.record_remote(p.dest, size);
                        },
                        ArgMode::InOut | ArgMode::Out => {
                            assert(params[j as int].is_output());
                            if memory_cleaned_up {
                                t.record_remote(p.dest, size);
                            } else {
                                let offset: usize = (p.scratch - base) as usize;
                                let d = copy_range(&data, offset, size);
                                t.record_local(p.dest, d);
                            }
                        },
                        ArgMode::In => {},
                    }
                    j = j + 1;
                    assert(crate::record_task::trace_views(t.trace@) =~= trace0 + scratch_records(
                        params,
                        isizes,
                        data@,
                        base as int,
                        m2,
                        memory_cleaned_up,
                        j as int,
                    ));
                }
            } else {
                assert(crate::record_task::trace_views(t.trace@) =~= trace0 + Seq::<
                    RecordedView,
                >::empty());
            }
            t.regs = r;
        } else {
            // Step 1: restore all mutated memory.
            let mut taken: usize = 0;
            let mut i: usize = 0;
            while i < n
                invariant
                    i <= n,
                    n == params.len(),
                    self.param_list@ == params,
                    *self == *old(self),
                    old(self)@.can_process(old(t)@),
                    !old(self).scratch_enabled,
                    taken == saved_total(params, i as int),
                    taken <= saved_total(params, n as int),
                    t.mem@.mapped == m0.mapped,
                    m0 == old(t).mem@,
                    t.mem@ == unmutated(params, self.saved_data@, m0, i as int),
                    t@ == (RecordTaskView { mem: t@.mem, ..old(t)@ }),
                decreases n - i,
            {
                let p: MemoryParam = self.param_list[i];
                proof {
                    lemma_saved_total_monotonic(params, i as int + 1, n as int);
                    assert(self.saved_data@.len() == saved_total(params, n as int));
                    assert(self.saved_data.len() <= usize::MAX);
                    assert(saved_total(params, i as int + 1) == saved_total(params, i as int) + (
                    if params[i as int].has_mutator {
                        params[i as int].num_bytes.incoming_size as int
                    } else {
                        0
                    }));
                }
                if p.has_mutator {
                    assert(params[i as int].has_mutator);
                    let size: usize = p.num_bytes.incoming_size;
                    let d = copy_range(&self.saved_data, taken, size);
                    let ok = t.mem.write_bytes(p.dest, &d);
                    assert(ok);
                    taken = taken + size;
                }
                i = i + 1;
            }
            let ghost m1 = t.mem@;
            // Step 2: record all output memory areas.
            let sizes = self.evaluate_sizes(t);
            let ghost isizes = as_ints(sizes@);
            let mut j: usize = 0;
            assert(crate::record_task::trace_views(t.trace@) =~= trace0 + direct_records(
                params,
                isizes,
                m1,
                0,
            ));
            while j < n
                invariant
                    j <= n,
                    n == params.len(),
                    sizes@.len() == n,
                    isizes == as_ints(sizes@),
                    isizes == old(self)@.result_sizes(old(t)@),
                    self.param_list@ == params,
                    *self == *old(self),
                    old(self)@.can_process(old(t)@),
                    !old(self).scratch_enabled,
                    t.mem@ == m1,
                    m1.mapped == old(t).mem@.mapped,
                    crate::record_task::trace_views(t.trace@) == trace0 + direct_records(
                        params,
                        isizes,
                        m1,
                        j as int,
                    ),
                    t@ == (RecordTaskView { mem: t@.mem, trace: t@.trace, ..old(t)@ }),
                decreases n - j,
            {
                let p: MemoryParam = self.param_list[j];
                let size: usize = sizes[j];
                assert(isizes[j as int] == size);
                let ghost touch = params[j as int];
                t.record_remote(p.dest, size);
                j = j + 1;
                assert(crate::record_task::trace_views(t.trace@) =~= trace0 + direct_records(
                    params,
                    isizes,
                    m1,
                    j as int,
                ));
            }
            self.saved_data = Vec::new();
        }
        if self.should_emulate_result {
            let mut r: Registers = t.regs;
            r.set_syscall_result(self.emulated_result);
            t.regs = r;
        }
    }
}

/// The saved originals of more parameters take no less room.
pub proof fn lemma_saved_total_monotonic(params: Seq<MemoryParam>, i: int, n: int)
    requires
        0 <= i <= n,
    ensures
        0 <= saved_total(params, i) <= saved_total(params, n),
    decreases n - i,
{
    if i < n {
        lemma_saved_total_monotonic(params, i, n - 1);
    } else {
        lemma_saved_total_nonnegative(params, n);
    }
}

proof fn lemma_saved_total_nonnegative(params: Seq<MemoryParam>, n: int)
    ensures
        saved_total(params, n) >= 0,
    decreases n,
{
    if n > 0 {
        lemma_saved_total_nonnegative(params, n - 1);
    }
}

impl SyscallStateView {
    /// Whether scratch memory is on once the syscall is prepared.
    pub open spec fn prepared_scratch(self, t: RecordTaskView, sw: Switchable) -> bool {
        self.scratch_enabled || self.will_enable_scratch(t, sw)
    }

    /// The parameters once scratch memory is set up.
    pub open spec fn prepared_params(self, t: RecordTaskView, sw: Switchable) -> Seq<MemoryParam> {
        if self.will_enable_scratch(t, sw) {
            with_relocated_sizes(self.params)
        } else {
            self.params
        }
    }

    /// Tracee memory once scratch memory is set up.
    pub open spec fn prepared_memory(self, t: RecordTaskView, sw: Switchable) -> MemImage {
        let n = self.params.len() as int;
        if self.will_enable_scratch(t, sw) {
            redirected_pointers(
                self.params,
                t.regs.arch,
                copied_in(self.params, t.mem, n),
                n,
            )
        } else {
            t.mem
        }
    }

    /// The task's registers once scratch memory is set up.
    pub open spec fn prepared_regs(self, t: RecordTaskView, sw: Switchable) -> Registers {
        if self.will_enable_scratch(t, sw) {
            redirected_regs(self.params, t.regs, self.params.len() as int)
        } else {
            t.regs
        }
    }

    /// What `done_preparing` needs of a syscall that is not prepared yet:
    /// what the scratch setup needs, a decision for each parameter that has a
    /// mutator, and mapped memory where the decisions are carried out.
    pub open spec fn can_finish_preparing(
        self,
        t: RecordTaskView,
        sw: Switchable,
        decisions: Seq<Option<Vec<u8>>>,
    ) -> bool {
        self.can_prepare(t, sw) && self.decisions_ready(t, self.prepared_scratch(t, sw), decisions)
    }

    /// What `abort_syscall_results` needs: the syscall was prepared, and the
    /// memory to write is mapped.
    pub open spec fn can_abort(self, t: RecordTaskView) -> bool {
        let params = self.params;
        let n = params.len() as int;
        &&& self.wf()
        &&& self.tuid == t.tuid
        &&& self.preparation_done
        &&& if self.scratch_enabled {
            forall|i: int|
                0 <= i < n && (#[trigger] params[i]).ptr_in_memory != 0 ==> mem_mapped(
                    t.mem,
                    params[i].ptr_in_memory as int,
                    word_size_spec(t.regs.arch) as int,
                )
        } else {
            &&& self.saved_data.len() >= saved_total(params, n)
            &&& forall|i: int|
                0 <= i < n && (#[trigger] params[i]).has_mutator ==> mem_mapped(
                    t.mem,
                    params[i].dest as int,
                    params[i].num_bytes.incoming_size as int,
                )
        }
    }

    /// Tracee memory after `abort_syscall_results`.
    pub open spec fn aborted_memory(self, t: RecordTaskView) -> MemImage {
        let params = self.params;
        let n = params.len() as int;
        if self.scratch_enabled {
            restored_pointers(params, t.regs.arch, t.mem, n)
        } else {
            unmutated(params, self.saved_data, t.mem, n)
        }
    }
}

impl TaskSyscallState {
    /// Called when all memory parameters have been identified. Sets up
    /// scratch memory if `sw` allows switching and scratch memory can be
    /// used, then carries out the mutators' decisions: `decisions[i]` holds
    /// the bytes that the kernel is to read in place of parameter `i`, or
    /// `None` if the parameter stays as it is. A parameter changed in place
    /// has its contents saved first. Returns whether the task may be switched
    /// out. A syscall that is already prepared is left alone.
    pub fn done_preparing(
        &mut self,
        t: &mut RecordTask,
        sw: Switchable,
        decisions: &Vec<Option<Vec<u8>>>,
    ) -> (r: Switchable)
        requires
            old(self).tuid == old(t).tuid,
            !old(self).preparation_done ==> old(self)@.can_finish_preparing(
                old(t)@,
                sw,
                decisions@,
            ),
        ensures
            old(self).preparation_done ==> r == old(self).switchable && *final(self) == *old(self)
                && *final(t) == *old(t),
            !old(self).preparation_done ==> {
                let enabled = old(self)@.prepared_scratch(old(t)@, sw);
                let pp = old(self)@.prepared_params(old(t)@, sw);
                let done = mutated(
                    pp,
                    enabled,
                    decisions@,
                    old(self)@.prepared_memory(old(t)@, sw),
                    old(self).saved_data@,
                    pp.len() as int,
                );
                &&& r == old(self)@.granted(old(t)@, sw)
                &&& final(self)@.wf()
                &&& final(self)@ == (SyscallStateView {
                    preparation_done: true,
                    write_back: WriteBack::WriteBack,
                    switchable: r,
                    scratch_enabled: enabled,
                    params: final(self)@.params,
                    saved_data: final(self)@.saved_data,
                    ..old(self)@
                })
                &&& final(self).param_list@ == after_mutators(pp, decisions@)
                &&& final(self).saved_data@ == done.1
                &&& final(t).mem@ == done.0
                &&& final(t).mem@.mapped == old(t).mem@.mapped
                &&& final(t).regs == old(self)@.prepared_regs(old(t)@, sw)
                &&& final(t)@ == (RecordTaskView {
                    mem: final(t)@.mem,
                    regs: final(t)@.regs,
                    ..old(t)@
                })
            },
    {
        if self.preparation_done {
            return self.switchable;
        }
        let ghost enabled = self@.prepared_scratch(t@, sw);
        let ghost pp = self@.prepared_params(t@, sw);
        let ghost pm = self@.prepared_memory(t@, sw);
        let ghost saved0 = self.saved_data@;
        
        let ghost params0 = self.param_list@;
        self.done_preparing_internal(t, sw);
        let ghost state1 = self@;
        let n: usize = self.param_list.len();
        assert(pp.len() == params0.len());
        assert forall|j: int| 0 <= j < n implies (#[trigger] pp[j]).has_mutator
            == params0[j].has_mutator && pp[j].dest == params0[j].dest && pp[j].scratch
            == params0[j].scratch && pp[j].num_bytes.incoming_size
            == params0[j].num_bytes.incoming_size && pp[j].wf() by {
            assert(params0[j].wf());
        }
        assert forall|j: int| 0 <= j < n && (#[trigger] pp[j]).has_mutator implies j
            < decisions@.len() && (decisions@[j] is Some ==> decisions@[j]->Some_0@.len()
            == pp[j].num_bytes.incoming_size && mem_mapped(
            pm,
            mutation_target(pp[j], enabled) as int,
            pp[j].num_bytes.incoming_size as int,
        )) by {
            assert(params0[j].has_mutator);
            assert(mutation_target(pp[j], enabled) == mutation_target(params0[j], enabled));
        }
        // Step 3: carry out the mutators' decisions. This happens whether
        // or not scratch memory is on.
        let mut i: usize = 0;
        while i < n
            invariant
                i <= n,
                n == pp.len(),
                enabled == self.scratch_enabled,
                forall|j: int|
                    0 <= j < n ==> (#[trigger] pp[j]).wf() && pp[j].has_mutator
                        == params0[j].has_mutator && pp[j].dest == params0[j].dest && pp[j].scratch
                        == params0[j].scratch && pp[j].num_bytes.incoming_size
                        == params0[j].num_bytes.incoming_size,
                forall|j: int|
                    0 <= j < n && (#[trigger] pp[j]).has_mutator ==> j < decisions@.len() && (
                    decisions@[j] is Some ==> decisions@[j]->Some_0@.len()
                        == pp[j].num_bytes.incoming_size && mem_mapped(
                        pm,
                        mutation_target(pp[j], enabled) as int,
                        pp[j].num_bytes.incoming_size as int,
                    )),
                t.mem@.mapped == pm.mapped,
                self.param_list@.len() == n,
                forall|j: int|
                    0 <= j < n ==> (#[trigger] self.param_list@[j]) == if j < i {
                        after_mutators(pp, decisions@)[j]
                    } else {
                        pp[j]
                    },
                (t.mem@, self.saved_data@) == mutated(
                    pp,
                    enabled,
                    decisions@,
                    pm,
                    saved0,
                    i as int,
                ),
                self@ == (SyscallStateView {
                    params: self@.params,
                    saved_data: self@.saved_data,
                    ..state1
                }),
                t@ == (RecordTaskView { mem: t@.mem, regs: t@.regs, ..old(t)@ }),
                t.regs == old(self)@.prepared_regs(old(t)@, sw),
            decreases n - i,
        {
            let p: MemoryParam = self.param_list[i];
            assert(p == pp[i as int]);
            if p.has_mutator {
                assert(pp[i as int].has_mutator);
                match &decisions[i] {
                    Some(bytes) => {
                        assert(decisions@[i as int] is Some);
                        if !self.scratch_enabled {
                            let mut original = t.mem.read_bytes(
                                p.dest,
                                p.num_bytes.incoming_size,
                            ).unwrap();
                            self.saved_data.append(&mut original);
                        }
                        let target: u64 = if self.scratch_enabled {
                            p.scratch
                        } else {
                            p.dest
                        };
                        let ok = t.mem.write_bytes(target, bytes);
                        assert(ok);
                    },
                    None => {
                        self.param_list.set(
                            i,
                            MemoryParam {
                                dest: p.dest,
                                scratch: p.scratch,
                                num_bytes: p.num_bytes,
                                ptr_in_memory: p.ptr_in_memory,
                                ptr_in_reg: p.ptr_in_reg,
                                mode: p.mode,
                                has_mutator: false,
                            },
                        );
                    },
                }
            }
            i = i + 1;
        }
        assert(self.param_list@ =~= after_mutators(pp, decisions@));
        assert forall|j: int| 0 <= j < self.param_list@.len() implies (
        #[trigger] self.param_list@[j]).wf() by {
            assert(pp[j].wf());
        }
        self.switchable
    }

    /// Called when a syscall has been aborted altogether, to undo what the
    /// preparation changed: with scratch memory on, the syscall arguments and
    /// the pointers in memory get their old values back; with scratch memory
    /// off, the parameters that were changed in place get their contents
    /// back.
    pub fn abort_syscall_results(&mut self, t: &mut RecordTask)
        requires
            old(self)@.can_abort(old(t)@),
        ensures
            final(t).mem@ == old(self)@.aborted_memory(old(t)@),
            final(t).mem@.mapped == old(t).mem@.mapped,
            final(t).regs == if old(self).scratch_enabled {
                restored_regs(
                    old(self).param_list@,
                    old(t).regs,
                    old(self).param_list@.len() as int,
                )
            } else {
                old(t).regs
            },
            final(t)@ == (RecordTaskView { mem: final(t)@.mem, regs: final(t)@.regs, ..old(t)@ }),
            final(self).saved_data@ == if old(self).scratch_enabled {
                old(self).saved_data@
            } else {
                old(self).saved_data@.skip(
                    saved_total(old(self).param_list@, old(self).param_list@.len() as int),
                )
            },
            final(self)@ == (SyscallStateView {
                saved_data: final(self)@.saved_data,
                ..old(self)@
            }),
    {
        let n: usize = self.param_list.len();
        let ghost params = self.param_list@;
        let ghost m0 = t.mem@;
        let arch = t.arch();
        if self.scratch_enabled {
            let mut r: Registers = t.regs;
            let mut k: usize = 0;
            while k < n
                invariant
                    k <= n,
                    n == params.len(),
                    self.param_list@ == params,
                    *self == *old(self),
                    old(self)@.can_abort(old(t)@),
                    old(self).scratch_enabled,
                    arch == old(t).regs.arch,
                    t.mem@.mapped == m0.mapped,
                    m0 == old(t).mem@,
                    t.mem@ == restored_pointers(params, arch, m0, k as int),
                    r == restored_regs(params, old(t).regs, k as int),
                    t@ == (RecordTaskView { mem: t@.mem, ..old(t)@ }),
                decreases n - k,
            {
                let p: MemoryParam = self.param_list[k];
                assert(params[k as int].wf());
                if p.ptr_in_reg != 0 {
                    r.set_arg(p.ptr_in_reg, p.dest);
                }
                if p.ptr_in_memory != 0 {
                    assert(params[k as int].ptr_in_memory != 0);
                    set_remote_ptr(t, p.ptr_in_memory, p.dest);
                }
                k = k + 1;
            }
            t.regs = r;
        } else {
            let mut taken: usize = 0;
            let mut i: usize = 0;
            proof {
                lemma_saved_total_monotonic(params, 0, n as int);
            }
            while i < n
                invariant
                    i <= n,
                    n == params.len(),
                    self.param_list@ == params,
                    *self == *old(self),
                    old(self)@.can_abort(old(t)@),
                    !old(self).scratch_enabled,
                    taken == saved_total(params, i as int),
                    taken <= saved_total(params, n as int),
                    t.mem@.mapped == m0.mapped,
                    m0 == old(t).mem@,
                    t.mem@ == unmutated(params, self.saved_data@, m0, i as int),
                    t@ == (RecordTaskView { mem: t@.mem, ..old(t)@ }),
                decreases n - i,
            {
                let p: MemoryParam = self.param_list[i];
                proof {
                    lemma_saved_total_monotonic(params, i as int + 1, n as int);
                    assert(self.saved_data@.len() >= saved_total(params, n as int));
                    assert(self.saved_data.len() <= usize::MAX);
                    assert(saved_total(params, i as int + 1) == saved_total(params, i as int) + (
                    if params[i as int].has_mutator {
                        params[i as int].num_bytes.incoming_size as int
                    } else {
                        0
                    }));
                }
                if p.has_mutator {
                    assert(params[i as int].has_mutator);
                    let size: usize = p.num_bytes.incoming_size;
                    let d = copy_range(&self.saved_data, taken, size);
                    let ok = t.mem.write_bytes(p.dest, &d);
                    assert(ok);
                    taken = taken + size;
                }
                i = i + 1;
            }
            let rest = copy_range(&self.saved_data, taken, self.saved_data.len() - taken);
            assert(rest@ =~= old(self).saved_data@.skip(taken as int));
            self.saved_data = rest;
        }
    }
}

} // verus!
