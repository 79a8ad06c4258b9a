use rd::kernel_abi::SupportedArch;
use rd::registers::Registers;
use rd::replay_timeline::{
    mark_order, BreakStatus, KnownStep, Mark, ReplayResult, ReplaySessionState, ReplayStatus,
    ReplayTimeline, ReverseProgress, ReverseStep, RunCommand, SeekPlan, SigInfo, TimelineError,
    WatchConfig, WatchType, Watchpoint,
};

fn session(can_clone: bool) -> ReplaySessionState {
    ReplaySessionState {
        done_initial_exec: true,
        current_task: None,
        frame_time: 1,
        can_clone,
        next_step_is_successful_exec_exit: false,
    }
}

fn at(event: u64, ticks: u64, step_key: u32) -> Mark {
    Mark { event, ticks, step_key, regs: Registers::new(SupportedArch::X64) }
}

/// A stop with no reason, or at a breakpoint.
fn status(breakpoint_hit: bool) -> BreakStatus {
    BreakStatus {
        task: None,
        watchpoints_hit: Vec::new(),
        breakpoint_hit,
        singlestep_complete: !breakpoint_hit,
        signal: None,
        task_exit: false,
    }
}

#[test]
fn marks_are_ordered_by_event_then_ticks_then_step() {
    assert!(at(1, 9, 9).before(&at(2, 0, 0)));
    assert!(at(2, 3, 9).before(&at(2, 4, 0)));
    assert!(at(2, 4, 0).before(&at(2, 4, 1)));
    assert!(!at(2, 4, 1).before(&at(2, 4, 1)));
    assert!(!at(3, 0, 0).before(&at(2, 9, 9)));
    assert!(mark_order(&at(2, 4, 1), &at(2, 4, 1)));
    assert!(mark_order(&at(2, 4, 0), &at(2, 4, 1)));
    assert!(!mark_order(&at(2, 4, 1), &at(2, 4, 0)));
    assert!(!at(2, 4, 0).in_execution());
    assert!(at(2, 4, 1).in_execution());
}

#[test]
fn marks_are_kept_in_the_order_of_the_replay() {
    let mut tl = ReplayTimeline::new(at(5, 0, 0), session(true));
    assert_eq!(tl.mark(), at(5, 0, 0));
    tl.replay_step_forward(at(9, 2, 0), session(true));
    assert_eq!(tl.mark(), at(9, 2, 0));
    // Going back and naming a state in between puts it in between.
    tl.seek_to_mark(&at(5, 0, 0), session(true));
    tl.replay_step_forward(at(7, 1, 1), session(true));
    assert_eq!(tl.mark(), at(7, 1, 1));
    assert_eq!(tl.marks, vec![at(5, 0, 0), at(7, 1, 1), at(9, 2, 0)]);
    for i in 0..tl.marks.len() {
        for j in 0..tl.marks.len() {
            assert_eq!(i < j, tl.marks[i].before(&tl.marks[j]));
        }
    }
    // Naming a state twice names it once.
    assert_eq!(tl.mark(), at(7, 1, 1));
    assert_eq!(tl.marks.len(), 3);
}

#[test]
fn seek_then_mark_gives_the_mark_sought() {
    let mut tl = ReplayTimeline::new(at(1, 0, 0), session(true));
    let first = tl.add_explicit_checkpoint();
    tl.replay_step_forward(at(4, 7, 0), session(true));
    tl.mark();
    let marks = tl.marks.clone();
    tl.seek_to_mark(&first, session(true));
    assert_eq!(tl.current, first);
    assert_eq!(tl.mark(), first);
    assert_eq!(tl.marks, marks);
    // Seeking again changes nothing.
    tl.seek_to_mark(&first, session(true));
    assert_eq!(tl.current, first);
    assert_eq!(tl.marks, marks);
}

#[test]
fn checkpoint_added_and_removed_leaves_the_checkpoints_as_they_were() {
    let mut tl = ReplayTimeline::new(at(1, 0, 0), session(true));
    tl.add_explicit_checkpoint();
    tl.replay_step_forward(at(6, 0, 0), session(true));
    tl.add_explicit_checkpoint();
    tl.seek_to_mark(&at(3, 0, 0), session(true));
    let before = tl.checkpoints.clone();
    // A new checkpoint in between.
    let m = tl.add_explicit_checkpoint();
    assert_eq!(tl.checkpoints.len(), 3);
    assert_eq!(tl.checkpoints[1].mark, at(3, 0, 0));
    assert_eq!(tl.checkpoints[1].refcount, 1);
    tl.remove_explicit_checkpoint(&m);
    assert_eq!(tl.checkpoints, before);
    // A second hold on one that exists.
    tl.seek_to_mark(&at(6, 0, 0), session(true));
    let m = tl.add_explicit_checkpoint();
    assert_eq!(tl.checkpoints[1].refcount, 2);
    tl.remove_explicit_checkpoint(&m);
    assert_eq!(tl.checkpoints, before);
    // Letting go of a state that is not held changes nothing.
    tl.remove_explicit_checkpoint(&at(100, 0, 0));
    assert_eq!(tl.checkpoints, before);
}

#[test]
fn no_checkpoint_where_the_session_cannot_be_cloned() {
    let mut tl = ReplayTimeline::new(at(1, 0, 0), session(false));
    assert!(!tl.can_add_checkpoint());
    let m = tl.add_explicit_checkpoint();
    assert_eq!(m, at(1, 0, 0));
    assert!(tl.checkpoints.is_empty());
    assert_eq!(tl.marks, vec![at(1, 0, 0)]);
    // Nor in the middle of an event.
    let mut tl = ReplayTimeline::new(at(1, 0, 3), session(true));
    assert!(!tl.can_add_checkpoint());
    tl.add_explicit_checkpoint();
    assert!(tl.checkpoints.is_empty());
    let tl = ReplayTimeline::new(at(1, 5, 0), session(true));
    assert!(tl.can_add_checkpoint());
}

#[test]
fn seek_restarts_from_the_nearest_checkpoint_before() {
    let mut tl = ReplayTimeline::new(at(2, 0, 0), session(true));
    tl.add_explicit_checkpoint();
    tl.replay_step_forward(at(8, 0, 0), session(true));
    tl.add_explicit_checkpoint();
    assert_eq!(
        tl.plan_seek(&at(1, 0, 0)),
        SeekPlan { restart_from: None, target: at(1, 0, 0) }
    );
    assert_eq!(
        tl.plan_seek(&at(2, 0, 0)),
        SeekPlan { restart_from: Some(at(2, 0, 0)), target: at(2, 0, 0) }
    );
    assert_eq!(
        tl.plan_seek(&at(7, 9, 9)),
        SeekPlan { restart_from: Some(at(2, 0, 0)), target: at(7, 9, 9) }
    );
    assert_eq!(
        tl.plan_seek(&at(9, 0, 0)),
        SeekPlan { restart_from: Some(at(8, 0, 0)), target: at(9, 0, 0) }
    );
}

#[test]
fn seek_below_the_barrier_is_refused() {
    let mut tl = ReplayTimeline::new(at(2, 0, 0), session(true));
    tl.add_explicit_checkpoint();
    tl.set_reverse_execution_barrier_event(5);
    assert_eq!(tl.seek_to_before_event(4), Err(TimelineError::BelowBarrier));
    assert_eq!(
        tl.seek_to_before_event(5),
        Ok(SeekPlan { restart_from: Some(at(2, 0, 0)), target: Mark::before_event(5) })
    );
    // A checkpoint at a state at which the event is about to be replayed
    // is one to restart from; one further into the event is not.
    tl.replay_step_forward(at(7, 0, 0), session(true));
    tl.add_explicit_checkpoint();
    tl.replay_step_forward(at(8, 3, 0), session(true));
    tl.add_explicit_checkpoint();
    assert_eq!(tl.seek_to_before_event(7).unwrap().restart_from, Some(at(7, 0, 0)));
    assert_eq!(tl.seek_to_before_event(8).unwrap().restart_from, Some(at(7, 0, 0)));
    assert_eq!(tl.seek_to_before_event(9).unwrap().restart_from, Some(at(8, 3, 0)));
}

#[test]
fn reverse_step_ends_at_the_last_stop_before_its_start() {
    let mut tl = ReplayTimeline::new(at(2, 0, 0), session(true));
    tl.add_explicit_checkpoint();
    tl.replay_step_forward(at(10, 0, 0), session(true));
    tl.add_explicit_checkpoint();
    let (mut search, restart) = ReverseStep::begin(&tl, RunCommand::RunContinue, 0);
    // The checkpoint at the start itself is of no use: the step ends before.
    assert_eq!(restart, Some(at(2, 0, 0)));
    assert_eq!(search.observe(&at(2, 0, 0), status(false)), ReverseProgress::KeepRunning);
    assert_eq!(search.observe(&at(3, 0, 0), status(true)), ReverseProgress::KeepRunning);
    assert_eq!(search.observe(&at(4, 0, 0), status(false)), ReverseProgress::KeepRunning);
    assert_eq!(search.observe(&at(7, 0, 0), status(true)), ReverseProgress::KeepRunning);
    assert_eq!(search.observe(&at(9, 0, 0), status(false)), ReverseProgress::KeepRunning);
    assert_eq!(
        search.observe(&at(10, 0, 0), status(true)),
        ReverseProgress::Done { target: Some(at(7, 0, 0)) }
    );
    // What is reported is the stop at which the step ends.
    let found = search.finish(None);
    assert!(found.breakpoint_hit && !found.task_exit);
}

#[test]
fn reverse_step_without_a_stop_goes_to_the_start() {
    let tl = ReplayTimeline::new(at(10, 0, 0), session(true));
    let (mut search, restart) = ReverseStep::begin(&tl, RunCommand::RunContinue, 0);
    assert_eq!(restart, None);
    assert_eq!(search.observe(&at(4, 0, 0), status(false)), ReverseProgress::KeepRunning);
    assert_eq!(
        search.observe(&at(10, 0, 0), status(false)),
        ReverseProgress::Done { target: None }
    );
    // At the start of what can be replayed the exit of the task is reported.
    let found = search.finish(None);
    assert!(found.task_exit && found.task.is_none() && found.watchpoints_hit.is_empty());
    assert!(!found.breakpoint_hit && !found.singlestep_complete && found.signal.is_none());
}

#[test]
fn breakpoints_and_watchpoints_are_sets() {
    let mut tl = ReplayTimeline::new(at(1, 0, 0), session(true));
    assert!(tl.set_breakpoint(0x400100));
    assert!(!tl.set_breakpoint(0x400100));
    assert!(tl.set_breakpoint(0x400200));
    assert_eq!(tl.breakpoints.len(), 2);
    tl.clear_breakpoint(0x400100);
    assert_eq!(tl.breakpoints.len(), 1);
    assert_eq!(tl.breakpoints[0].addr, 0x400200);
    tl.clear_breakpoint(0x400100);
    assert_eq!(tl.breakpoints.len(), 1);
    assert!(tl.set_watchpoint(0x7000, 8, WatchType::WatchWrite));
    assert!(!tl.set_watchpoint(0x7000, 8, WatchType::WatchWrite));
    assert!(tl.set_watchpoint(0x7000, 8, WatchType::WatchReadWrite));
    tl.clear_watchpoint(0x7000, 8, WatchType::WatchWrite);
    assert_eq!(
        tl.watchpoints,
        vec![Watchpoint { addr: 0x7000, num_bytes: 8, type_: WatchType::WatchReadWrite }]
    );
    // They outlast steps, and go all at once.
    tl.replay_step_forward(at(2, 0, 0), session(true));
    assert_eq!(tl.breakpoints.len(), 1);
    tl.remove_breakpoints_and_watchpoints();
    assert!(tl.breakpoints.is_empty());
    assert!(tl.watchpoints.is_empty());
}

#[test]
fn reverse_step_does_not_end_below_the_barrier() {
    let mut tl = ReplayTimeline::new(at(2, 0, 0), session(true));
    tl.add_explicit_checkpoint();
    tl.set_reverse_execution_barrier_event(5);
    tl.replay_step_forward(at(10, 0, 0), session(true));
    let (mut search, restart) = ReverseStep::begin(&tl, RunCommand::RunContinue, 0);
    assert_eq!(restart, Some(at(2, 0, 0)));
    assert_eq!(search.barrier_event, 5);
    assert_eq!(search.observe(&at(3, 0, 0), status(true)), ReverseProgress::KeepRunning);
    assert_eq!(search.observe(&at(4, 9, 0), status(true)), ReverseProgress::KeepRunning);
    assert!(search.best.is_none());
    assert_eq!(search.observe(&at(5, 0, 0), status(true)), ReverseProgress::KeepRunning);
    assert_eq!(search.observe(&at(8, 0, 0), status(false)), ReverseProgress::KeepRunning);
    assert_eq!(
        search.observe(&at(10, 0, 0), status(false)),
        ReverseProgress::Done { target: Some(at(5, 0, 0)) }
    );
}

#[test]
fn replay_stops_for_a_reason_or_for_none() {
    assert!(!status(false).is_stop_site());
    assert!(status(true).is_stop_site());
    let mut hit = status(false);
    hit.watchpoints_hit.push(WatchConfig { addr: 8, num_bytes: 4, type_: WatchType::WatchWrite });
    assert!(hit.is_stop_site());
    let mut signal = status(false);
    signal.signal = Some(SigInfo::new(11));
    assert!(signal.is_stop_site());
    let mut exit = status(false);
    exit.task_exit = true;
    assert!(exit.is_stop_site());
    assert!(BreakStatus::start_of_replay(None).is_stop_site());
}

#[test]
fn reverse_step_keeps_the_reason_of_the_last_stop_only() {
    let tl = ReplayTimeline::new(at(10, 0, 0), session(true));
    let (mut search, _) = ReverseStep::begin(&tl, RunCommand::RunContinue, 0);
    let mut signal = status(false);
    signal.signal = Some(SigInfo::new(11));
    search.observe(&at(3, 0, 0), signal);
    search.observe(&at(4, 0, 0), status(true));
    search.observe(&at(5, 0, 0), status(false));
    // A stop at the start itself, or behind it, is not one to go back to.
    let mut late = status(false);
    late.signal = Some(SigInfo::new(7));
    assert_eq!(
        search.observe(&at(10, 0, 0), late),
        ReverseProgress::Done { target: Some(at(4, 0, 0)) }
    );
    let found = search.finish(None);
    assert!(found.breakpoint_hit && found.signal.is_none());
}

#[test]
fn reverse_singlestep_ends_at_the_state_before() {
    let mut tl = ReplayTimeline::new(at(2, 0, 0), session(true));
    tl.add_explicit_checkpoint();
    tl.replay_step_forward(at(10, 0, 0), session(true));
    let (mut search, restart) = ReverseStep::begin(&tl, RunCommand::RunSinglestep, 0);
    assert_eq!(restart, Some(at(2, 0, 0)));
    // Every finished step is a state at which the step back can end.
    assert!(status(false).ends_reverse(RunCommand::RunSinglestep));
    assert!(!status(false).ends_reverse(RunCommand::RunContinue));
    assert!(!status(false).ends_reverse(RunCommand::RunSyscall));
    assert!(status(true).ends_reverse(RunCommand::RunContinue));
    search.observe(&at(3, 0, 0), status(true));
    search.observe(&at(9, 0, 0), status(false));
    assert_eq!(
        search.observe(&at(10, 0, 0), status(false)),
        ReverseProgress::Done { target: Some(at(9, 0, 0)) }
    );
    let found = search.finish(None);
    assert!(found.singlestep_complete && !found.breakpoint_hit);
}

#[test]
fn reverse_step_does_not_end_before_the_event_that_the_caller_names() {
    let mut tl = ReplayTimeline::new(at(2, 0, 0), session(true));
    tl.set_reverse_execution_barrier_event(4);
    tl.replay_step_forward(at(10, 0, 0), session(true));
    let (search, _) = ReverseStep::begin(&tl, RunCommand::RunContinue, 7);
    assert_eq!(search.barrier_event, 7);
    let (mut search, _) = ReverseStep::begin(&tl, RunCommand::RunContinue, 3);
    assert_eq!(search.barrier_event, 4);
    search.observe(&at(3, 0, 0), status(true));
    assert_eq!(
        search.observe(&at(10, 0, 0), status(false)),
        ReverseProgress::Done { target: None }
    );
}

#[test]
fn timelines_made_by_steps_are_well_formed_and_others_are_told_apart() {
    let mut tl = ReplayTimeline::new(at(2, 0, 0), session(true));
    assert!(tl.is_well_formed());
    tl.add_explicit_checkpoint();
    tl.replay_step_forward(at(5, 0, 0), session(true));
    tl.mark();
    tl.add_explicit_checkpoint();
    tl.set_breakpoint(0x4000);
    tl.set_watchpoint(0x6000, 4, WatchType::WatchWrite);
    tl.set_watchpoint(0x6000, 4, WatchType::WatchReadWrite);
    assert!(tl.is_well_formed());
    // Marks out of order.
    let mut bad = ReplayTimeline::new(at(2, 0, 0), session(true));
    bad.marks = vec![at(5, 0, 0), at(2, 0, 0)];
    assert!(!bad.is_well_formed());
    // A mark twice.
    bad.marks = vec![at(2, 0, 0), at(2, 0, 0)];
    assert!(!bad.is_well_formed());
    // A checkpoint at a state without a name, or without a holder.
    let mut bad = ReplayTimeline::new(at(2, 0, 0), session(true));
    bad.add_explicit_checkpoint();
    bad.checkpoints[0].refcount = 0;
    assert!(!bad.is_well_formed());
    bad.checkpoints[0].refcount = 1;
    assert!(bad.is_well_formed());
    bad.marks.clear();
    assert!(!bad.is_well_formed());
    // A breakpoint or a watchpoint twice.
    let mut bad = ReplayTimeline::new(at(2, 0, 0), session(true));
    bad.set_breakpoint(0x4000);
    bad.breakpoints.push(bad.breakpoints[0]);
    assert!(!bad.is_well_formed());
    bad.breakpoints.pop();
    bad.set_watchpoint(0x6000, 4, WatchType::WatchWrite);
    bad.watchpoints.push(Watchpoint { addr: 0x6000, num_bytes: 4, type_: WatchType::WatchWrite });
    assert!(!bad.is_well_formed());
}

#[test]
fn forward_run_ends_at_a_stop_at_the_end_or_at_the_event_named() {
    // The session stands before frame 1.
    let tl = ReplayTimeline::new(at(1, 0, 0), session(true));
    let mut quiet =
        ReplayResult { status: ReplayStatus::ReplayContinue, break_status: status(false) };
    quiet.break_status.singlestep_complete = false;
    assert!(!tl.forward_run_is_over(&quiet, 2));
    assert!(tl.forward_run_is_over(&quiet, 1));
    assert!(tl.forward_run_is_over(&quiet, 0));
    let stepped = ReplayResult { status: ReplayStatus::ReplayContinue, break_status: status(false) };
    assert!(tl.forward_run_is_over(&stepped, 2));
    let hit = ReplayResult { status: ReplayStatus::ReplayContinue, break_status: status(true) };
    assert!(tl.forward_run_is_over(&hit, u64::MAX));
    let mut ended = ReplayResult { status: ReplayStatus::ReplayExited, break_status: status(false) };
    ended.break_status.singlestep_complete = false;
    assert!(tl.forward_run_is_over(&ended, u64::MAX));
}

#[test]
fn known_single_step_is_gone_back_without_running_the_session() {
    let mut tl = ReplayTimeline::new(at(4, 10, 0), session(true));
    let from = tl.mark();
    let mut regs = Registers::new(SupportedArch::X64);
    regs.ip = 0x4000;
    tl.replay_step_forward(at(4, 11, 0), session(true));
    let to = tl.mark();
    // Nothing is known yet.
    assert_eq!(tl.lazy_reverse_singlestep(&to), None);
    tl.note_singlestep(from, regs, to);
    assert_eq!(tl.lazy_reverse_singlestep(&to), Some(KnownStep { from, to, regs }));
    assert_eq!(tl.lazy_reverse_singlestep(&from), None);
    // The first step that was noted to a state stays.
    let mut other = regs;
    other.ip = 0x5000;
    tl.note_singlestep(from, other, to);
    assert_eq!(tl.known_steps.len(), 1);
    assert_eq!(tl.lazy_reverse_singlestep(&to).unwrap().regs.ip, 0x4000);
    // A breakpoint or a watchpoint might stop the replay on the way.
    tl.set_breakpoint(0x4000);
    assert_eq!(tl.lazy_reverse_singlestep(&to), None);
    tl.clear_breakpoint(0x4000);
    tl.set_watchpoint(0x6000, 4, WatchType::WatchWrite);
    assert_eq!(tl.lazy_reverse_singlestep(&to), None);
    tl.remove_breakpoints_and_watchpoints();
    assert!(tl.lazy_reverse_singlestep(&to).is_some());
    assert!(tl.is_well_formed());
}

#[test]
fn steps_that_lead_nowhere_new_are_not_noted() {
    let mut tl = ReplayTimeline::new(at(4, 10, 0), session(true));
    let from = tl.mark();
    tl.replay_step_forward(at(4, 11, 0), session(true));
    let to = tl.mark();
    let regs = Registers::new(SupportedArch::X64);
    // Backwards, or from a state to itself.
    tl.note_singlestep(to, regs, from);
    tl.note_singlestep(from, regs, from);
    // Between states of which one has no name.
    tl.note_singlestep(from, regs, at(4, 12, 0));
    tl.note_singlestep(at(4, 9, 0), regs, to);
    assert!(tl.known_steps.is_empty());
    // A step that leads backwards makes a timeline ill formed.
    tl.known_steps.push(KnownStep { from: to, to: from, regs });
    assert!(!tl.is_well_formed());
}

#[test]
fn states_of_one_step_are_told_apart_by_their_registers() {
    // Two states inside one repeated string instruction: the count differs.
    let mut early = at(4, 10, 0);
    early.regs.cx = 9;
    early.regs.di = 0x2000;
    let mut late = at(4, 10, 0);
    late.regs.cx = 8;
    late.regs.di = 0x2001;
    assert_ne!(early, late);
    assert!(early.before(&late));
    assert!(!late.before(&early));
    assert!(mark_order(&early, &late) && !mark_order(&late, &early));
    // Both can have a name, and a checkpoint, in one timeline.
    let mut tl = ReplayTimeline::new(early, session(true));
    tl.add_explicit_checkpoint();
    tl.replay_step_forward(late, session(true));
    tl.add_explicit_checkpoint();
    assert_eq!(tl.marks, vec![early, late]);
    assert_eq!(tl.plan_seek(&late).restart_from, Some(late));
    assert_eq!(tl.plan_seek(&early).restart_from, Some(early));
    assert!(tl.is_well_formed());
    // Registers that differ otherwise give an order too.
    let mut other = early;
    other.regs.r15 = 1;
    assert!(early.before(&other) != other.before(&early));
    let mut narrow = early;
    narrow.regs.arch = SupportedArch::X86;
    assert!(narrow.before(&early) && !early.before(&narrow));
    // Every state at which an event is about to be replayed is at or
    // before the last of them.
    let last = Mark::before_event(4);
    assert!(at(4, 0, 0).before(&last));
    assert!(early.before(&at(4, 10, 1)) && last.before(&at(4, 0, 1)));
    assert!(at(3, 99, 9).before(&last) && !at(4, 1, 0).before(&last));
}
