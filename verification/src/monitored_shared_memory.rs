//! Memory that a tracee shares read-only with a process that is not traced
//! and that writes to it.
//!
//! What the other process writes would reach the tracee unrecorded. So the
//! tracee is given a shadow of the memory, which nobody else writes to, and
//! the recorder looks at the real memory after each syscall: where it
//! differs from the shadow, the shadow is brought up to date and the change
//! is recorded. Only whole mappings are monitored this way, and only of the
//! files that dconf shares.

use crate::record_task::{RecordTask, RecordTaskView, RecordedView};
use crate::tracee_memory::{mem_mapped, mem_read, mem_write};
use vstd::prelude::*;

verus! {

/// The end of the path of the file that dconf shares with its clients.
pub open spec fn dconf_suffix() -> Seq<u8> {
    seq![47u8, 100u8, 99u8, 111u8, 110u8, 102u8, 47u8, 117u8, 115u8, 101u8, 114u8]
}

/// `name` ends with `suffix`.
pub open spec fn ends_with(name: Seq<u8>, suffix: Seq<u8>) -> bool {
    name.len() >= suffix.len() && name.subrange(name.len() - suffix.len(), name.len() as int)
        == suffix
}

/// A monitored mapping: the real memory as it was when it was last looked
/// at.
pub struct MonitoredSharedMemory {
    pub real_mem: Vec<u8>,
}

impl MonitoredSharedMemory {
    /// Monitor memory that held `real_mem` when it was mapped.
    pub fn new(real_mem: Vec<u8>) -> (r: MonitoredSharedMemory)
        ensures
            r.real_mem@ == real_mem@,
    {
        MonitoredSharedMemory { real_mem }
    }

    /// Monitor the mapping of the file `filename` if it is one that has to
    /// be: a file shared by dconf (its path ends in `/dconf/user`).
    /// `real_mem` is what the memory holds now.
    pub fn maybe_monitor(filename: &Vec<u8>, real_mem: Vec<u8>) -> (r: Option<
        MonitoredSharedMemory,
    >)
        ensures
            r is Some == ends_with(filename@, dconf_suffix()),
            r is Some ==> r->Some_0.real_mem@ == real_mem@,
    {
        let suffix: [u8; 11] = [47, 100, 99, 111, 110, 102, 47, 117, 115, 101, 114];
        assert(suffix@ =~= dconf_suffix());
        let n: usize = filename.len();
        if n < 11 {
            return None;
        }
        let mut i: usize = 0;
        while i < 11
            invariant
                i <= 11,
                n == filename@.len(),
                n >= 11,
                suffix@ == dconf_suffix(),
                forall|k: int| 0 <= k < i ==> filename@[n - 11 + k] == #[trigger] suffix@[k],
            decreases 11 - i,
        {
            if filename[n - 11 + i] != suffix[i] {
                assert(filename@.subrange(n - 11, n as int)[i as int] != dconf_suffix()[i as int]);
                return None;
            }
            i = i + 1;
        }
        assert(filename@.subrange(n - 11, n as int) =~= dconf_suffix());
        Some(MonitoredSharedMemory::new(real_mem))
    }

    /// The part of the monitored memory from `start` on, `size` bytes long.
    pub fn subrange(&self, start: usize, size: usize) -> (r: MonitoredSharedMemory)
        requires
            start + size <= self.real_mem@.len(),
        ensures
            r.real_mem@ == self.real_mem@.subrange(start as int, start + size),
    {
        MonitoredSharedMemory {
            real_mem: crate::task_syscall_state::copy_range(&self.real_mem, start, size),
        }
    }

    /// Look at the real memory, which now holds `real_now`: if the shadow
    /// that the tracee has at `start` differs, bring it up to date and
    /// record the new contents. Returns whether it differed.
    pub fn check_for_changes(
        &mut self,
        t: &mut RecordTask,
        start: u64,
        real_now: &Vec<u8>,
    ) -> (changed: bool)
        requires
            mem_mapped(old(t)@.mem, start as int, real_now@.len() as int),
        ensures
            changed == (mem_read(old(t)@.mem, start as int, real_now@.len()) != real_now@),
            final(self).real_mem@ == real_now@,
            final(t)@ == if changed {
                RecordTaskView {
                    mem: mem_write(old(t)@.mem, start as int, real_now@),
                    trace: old(t)@.trace.push(RecordedView { addr: start, data: real_now@ }),
                    ..old(t)@
                }
            } else {
                old(t)@
            },
    {
        let shadow = t.mem.read_bytes(start, real_now.len()).unwrap();
        self.real_mem = real_now.clone();
        if same_bytes(&shadow, real_now) {
            return false;
        }
        let ok = t.mem.write_bytes(start, real_now);
        assert(ok);
        t.record_local(start, real_now.clone());
        true
    }

    /// Look at every monitored mapping of the task: `monitored[i]` is
    /// mapped at `starts[i]`, and its real memory now holds `real_now[i]`.
    /// Each shadow that differs is brought up to date and recorded, in
    /// order. Returns how many shadows differed.
    pub fn check_all(
        t: &mut RecordTask,
        monitored: &mut Vec<MonitoredSharedMemory>,
        starts: &Vec<u64>,
        real_now: &Vec<Vec<u8>>,
    ) -> (changed: usize)
        requires
            old(monitored)@.len() == starts@.len(),
            real_now@.len() == starts@.len(),
            forall|i: int|
                0 <= i < starts@.len() ==> mem_mapped(
                    old(t)@.mem,
                    #[trigger] starts@[i] as int,
                    real_now@[i]@.len() as int,
                ),
        ensures
            final(monitored)@.len() == starts@.len(),
            forall|i: int|
                0 <= i < starts@.len() ==> (#[trigger] final(monitored)@[i]).real_mem@
                    == real_now@[i]@,
            final(t)@ == all_checked(old(t)@, starts@, real_now@, starts@.len() as int),
            changed == final(t)@.trace.len() - old(t)@.trace.len(),
    {
        let n: usize = starts.len();
        let mut changed: usize = 0;
        let mut out: Vec<MonitoredSharedMemory> = Vec::new();
        let mut i: usize = 0;
        while i < n
            invariant
                i <= n,
                n == starts@.len(),
                real_now@.len() == n,
                changed <= i,
                out@.len() == i,
                forall|k: int| 0 <= k < i ==> (#[trigger] out@[k]).real_mem@ == real_now@[k]@,
                t@.mem.mapped == old(t)@.mem.mapped,
                t@ == all_checked(old(t)@, starts@, real_now@, i as int),
                changed == t@.trace.len() - old(t)@.trace.len(),
                forall|k: int|
                    0 <= k < starts@.len() ==> mem_mapped(
                        old(t)@.mem,
                        #[trigger] starts@[k] as int,
                        real_now@[k]@.len() as int,
                    ),
            decreases n - i,
        {
            let mut m = MonitoredSharedMemory { real_mem: Vec::new() };
            assert(mem_mapped(
                old(t)@.mem,
                starts@[i as int] as int,
                real_now@[i as int]@.len() as int,
            ));
            if m.check_for_changes(t, starts[i], &real_now[i]) {
                changed = changed + 1;
            }
            out.push(m);
            i = i + 1;
        }
        *monitored = out;
        changed
    }
}

/// The task once the first `n` monitored mappings were looked at.
pub open spec fn all_checked(
    t: RecordTaskView,
    starts: Seq<u64>,
    real_now: Seq<Vec<u8>>,
    n: int,
) -> RecordTaskView
    decreases n,
{
    if n <= 0 {
        t
    } else {
        let t1 = all_checked(t, starts, real_now, n - 1);
        let start = starts[n - 1];
        let now = real_now[n - 1]@;
        if mem_read(t1.mem, start as int, now.len()) != now {
            RecordTaskView {
                mem: mem_write(t1.mem, start as int, now),
                trace: t1.trace.push(RecordedView { addr: start, data: now }),
                ..t1
            }
        } else {
            t1
        }
    }
}

/// Whether `a` and `b` hold the same bytes.
pub fn same_bytes(a: &Vec<u8>, b: &Vec<u8>) -> (r: bool)
    ensures
        r == (a@ == b@),
{
    if a.len() != b.len() {
        return false;
    }
    let mut i: usize = 0;
    while i < a.len()
        invariant
            i <= a@.len(),
            a@.len() == b@.len(),
            forall|k: int| 0 <= k < i ==> a@[k] == b@[k],
        decreases a@.len() - i,
    {
        if a[i] != b[i] {
            return false;
        }
        i = i + 1;
    }
    assert(a@ =~= b@);
    true
}

} // verus!
