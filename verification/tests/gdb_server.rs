use rd::gdb_command_handler::{GdbCommand, GdbCommandHandler};
use rd::gdb_connection::{
    GdbConnectionFeatures, GdbCont, GdbFileClose, GdbFileOpen, GdbFilePread, GdbFileSetfs, GdbMem,
    GdbRegisterValue, GdbRegisterValueData, GdbRequest, GdbRequestType, GdbRequestValue,
    GdbRestart, GdbRestartType, GdbThreadId, GdbWatch,
};
use rd::gdb_register::{ExtraRegisterValue, ExtraRegisters};
use rd::address_space::{
    find, is_in_patch_stubs, read_memory_for_reply, search_memory, Mapping, MemoryRange,
};
use rd::gdb_server::{
    breakpoint_condition, choose_port, debugger_params, get_cpu_features, get_reg, get_threadid,
    get_threadid_from_tuid, initial_port, is_in_exec, is_last_thread_exit, matches_threadid,
    watchpoint_type, ActivationNotice, Checkpoint, ConnectionFlags, ExplicitCheckpoint,
    GdbBreakpointCondition, GdbServer, ProbePort, RestartAction, ResumeAction, StopNotification,
    Target, ToTarget, WatchOutcome,
};
use rd::kernel_abi::SupportedArch;
use rd::record_task::{TaskUid, ThreadGroupUid};
use rd::registers::Registers;
use rd::replay_timeline::{
    BreakStatus, Mark, ReplayResult, ReplaySessionState, ReplayStatus, ReplayTimeline,
    ReverseStep, RunCommand, RunDirection, SeekPlan, SigInfo, TaskInfo, WatchConfig, WatchType,
};
use rd::tracee_memory::TraceeMemory;

fn debuggee_task() -> TaskInfo {
    TaskInfo {
        tuid: TaskUid { tid: 100, serial: 1 },
        tguid: ThreadGroupUid { tid: 100, serial: 1 },
        tgid: 100,
        rec_tid: 100,
        arch: SupportedArch::X64,
        execed: true,
        thread_group_size: 1,
    }
}

fn session_at(frame_time: u64) -> ReplaySessionState {
    ReplaySessionState {
        done_initial_exec: true,
        current_task: Some(debuggee_task()),
        frame_time,
        can_clone: true,
        next_step_is_successful_exec_exit: false,
    }
}

fn at(event: u64) -> Mark {
    Mark { event, ticks: 0, step_key: 0, regs: Registers::new(SupportedArch::X64) }
}

fn server_at(event: u64) -> GdbServer {
    let mut server = GdbServer::new(at(event), session_at(event), &Target::default());
    server.prepare_to_serve(0);
    server.await_connection(SupportedArch::X64, 0, GdbConnectionFeatures::default());
    server.activate_debugger();
    server
}

fn step_to(server: &mut GdbServer, event: u64) {
    let mut timeline = server.timeline.take().unwrap();
    timeline.replay_step_forward(at(event), session_at(event));
    server.timeline = Some(timeline);
}

fn restart(type_: GdbRestartType, param: u64) -> GdbRequest {
    GdbRequest {
        type_: GdbRequestType::DREQ_RESTART,
        value: GdbRequestValue::GdbRequestRestart(GdbRestart {
            param,
            param_str: param.to_string(),
            type_,
        }),
        target: GdbThreadId::any(),
        suppress_debugger_stop: false,
    }
}

fn cont(direction: RunDirection) -> GdbRequest {
    GdbRequest {
        type_: GdbRequestType::DREQ_CONT,
        value: GdbRequestValue::GdbRequestCont(GdbCont { run_direction: direction }),
        target: GdbThreadId::any(),
        suppress_debugger_stop: false,
    }
}

fn no_break(task: TaskInfo) -> BreakStatus {
    BreakStatus {
        task: Some(task),
        watchpoints_hit: Vec::new(),
        breakpoint_hit: false,
        singlestep_complete: false,
        signal: None,
        task_exit: false,
    }
}

#[test]
fn restart_to_explicit_checkpoint() {
    let mut server = server_at(1);
    server.add_checkpoint(1, "main () at prog.c:3");
    assert_eq!(server.checkpoints[&1].mark, at(1));
    assert_eq!(server.checkpoints[&1].is_explicit, ExplicitCheckpoint::Explicit);
    step_to(&mut server, 2);
    server.dispatch_watch_request(&GdbRequest {
        type_: GdbRequestType::DREQ_SET_SW_BREAK,
        value: GdbRequestValue::GdbRequestWatch(GdbWatch {
            addr: 0x40_0100,
            kind: 1,
            conditions: Vec::new(),
        }),
        target: GdbThreadId::any(),
        suppress_debugger_stop: false,
    });
    let action = server.restart_session(&restart(GdbRestartType::RestartFromCheckpoint, 1));
    let checkpoint = match action {
        RestartAction::SeekToCheckpoint { checkpoint, plan } => {
            assert_eq!(plan, SeekPlan { restart_from: Some(at(1)), target: at(1) });
            checkpoint
        }
        _ => panic!("checkpoint 1 exists"),
    };
    assert!(server.interrupt_pending);
    assert!(server.timeline.as_ref().unwrap().breakpoints.is_empty());
    server.checkpoint_restored(checkpoint, session_at(1));
    assert_eq!(server.timeline.as_ref().unwrap().current, at(1));
    assert_eq!(server.debugger_restart_checkpoint.as_ref().unwrap().mark, at(1));
    // The first resumption stops at once, at the checkpoint, and uses the
    // interrupt up.
    let action = server.resume(&cont(RunDirection::RunForward));
    assert_eq!(
        action,
        ResumeAction::StopAtOnce {
            stop: StopNotification {
                threadid: GdbThreadId { pid: 100, tid: 100 },
                sig: None,
                watch_addr: 0
            }
        }
    );
    assert!(!server.interrupt_pending);
    assert_eq!(server.timeline.as_ref().unwrap().current, at(1));
    assert_eq!(
        server.resume(&cont(RunDirection::RunForward)),
        ResumeAction::Run { direction: RunDirection::RunForward }
    );
}

#[test]
fn bad_checkpoint_id() {
    let mut server = server_at(1);
    server.add_checkpoint(1, "main");
    step_to(&mut server, 2);
    let mut timeline = server.timeline.take().unwrap();
    timeline.set_breakpoint(0x40_0100);
    server.timeline = Some(timeline);
    server.in_debuggee_end_state = true;
    let current = server.timeline.as_ref().unwrap().current;
    let marks = server.timeline.as_ref().unwrap().marks.clone();
    let pins = server.timeline.as_ref().unwrap().checkpoints.clone();
    let action = server.restart_session(&restart(GdbRestartType::RestartFromCheckpoint, 42));
    assert!(matches!(action, RestartAction::NotifyRestartFailed));
    let timeline = server.timeline.as_ref().unwrap();
    assert_eq!(timeline.current, current);
    assert_eq!(timeline.marks, marks);
    assert_eq!(timeline.checkpoints, pins);
    assert_eq!(timeline.breakpoints.len(), 1);
    assert!(!server.interrupt_pending);
    assert!(server.in_debuggee_end_state);
}

#[test]
fn memory_read_through_stub() {
    let mut mem = TraceeMemory::new();
    mem.map_zeroed(0xff0, 0x40);
    let bytes: Vec<u8> = (1..=16).collect();
    assert!(mem.write_bytes(0xff8, &bytes));
    let mut regs = Registers::new(SupportedArch::X64);
    regs.sp = 0x1000;
    regs.ip = 0x7000_0100;
    let maps = vec![
        Mapping { start: 0x1000, end: 0x2000, is_patch_stubs: false },
        Mapping { start: 0x7000_0000, end: 0x7000_1000, is_patch_stubs: true },
    ];
    assert!(is_in_patch_stubs(&maps, regs.ip));
    assert!(!is_in_patch_stubs(&maps, 0x1800));
    assert!(!is_in_patch_stubs(&maps, 0x9000));
    let req = GdbRequest {
        type_: GdbRequestType::DREQ_GET_MEM,
        value: GdbRequestValue::GdbRequestMem(GdbMem { addr: 0xff8, len: 16, data: Vec::new() }),
        target: GdbThreadId::any(),
        suppress_debugger_stop: false,
    };
    let mut result = read_memory_for_reply(&mem, 0xff8, 16);
    assert_eq!(result, bytes);
    GdbServer::maybe_intercept_mem_request(&regs, true, &req, &mut result);
    assert_eq!(result, vec![1, 2, 3, 4, 5, 6, 7, 8, 0, 0, 0, 0, 0, 0, 0, 0]);
    assert_eq!(
        GdbServer::dispatch_mem_request(&regs, &mem, &maps, &req),
        vec![1, 2, 3, 4, 5, 6, 7, 8, 0, 0, 0, 0, 0, 0, 0, 0]
    );
    // Outside the stubs nothing is hidden.
    let mut elsewhere = regs;
    elsewhere.ip = 0x1800;
    assert_eq!(GdbServer::dispatch_mem_request(&elsewhere, &mem, &maps, &req), bytes);
    let mut result = read_memory_for_reply(&mem, 0xff8, 16);
    GdbServer::maybe_intercept_mem_request(&regs, false, &req, &mut result);
    assert_eq!(result, bytes);
    // Nor where the read does not cover the whole word.
    let short = GdbRequest {
        type_: GdbRequestType::DREQ_GET_MEM,
        value: GdbRequestValue::GdbRequestMem(GdbMem { addr: 0xff8, len: 12, data: Vec::new() }),
        target: GdbThreadId::any(),
        suppress_debugger_stop: false,
    };
    let mut result = read_memory_for_reply(&mem, 0xff8, 12);
    GdbServer::maybe_intercept_mem_request(&regs, true, &short, &mut result);
    assert_eq!(result, bytes[..12].to_vec());
    // An x86 task has a word of four bytes.
    regs.arch = SupportedArch::X86;
    let mut result = read_memory_for_reply(&mem, 0xff8, 16);
    GdbServer::maybe_intercept_mem_request(&regs, true, &req, &mut result);
    assert_eq!(result, vec![1, 2, 3, 4, 5, 6, 7, 8, 0, 0, 0, 0, 13, 14, 15, 16]);
}

#[test]
fn unreadable_tail_reads_as_zero() {
    let mut mem = TraceeMemory::new();
    mem.map_zeroed(0x1000, 4);
    assert!(mem.write_bytes(0x1000, &vec![9, 8, 7, 6]));
    assert_eq!(read_memory_for_reply(&mem, 0x1000, 8), vec![9, 8, 7, 6, 0, 0, 0, 0]);
    assert_eq!(read_memory_for_reply(&mem, 0x1002, 3), vec![7, 6, 0]);
    assert_eq!(read_memory_for_reply(&mem, 0x2000, 2), vec![0, 0]);
    assert_eq!(read_memory_for_reply(&mem, 0x1000, 0), Vec::<u8>::new());
}

#[test]
fn reverse_continue_to_start() {
    let mut server = server_at(1);
    assert!(server.features.reverse_execution);
    // Forward, past the exit of the last thread: a kill is reported.
    let mut exit = no_break(debuggee_task());
    exit.task_exit = true;
    assert!(is_last_thread_exit(&exit));
    let stop = server.maybe_notify_stop(&cont(RunDirection::RunForward), &exit);
    assert_eq!(
        stop,
        Some(StopNotification {
            threadid: GdbThreadId { pid: 100, tid: 100 },
            sig: Some(9),
            watch_addr: 0
        })
    );
    assert_eq!(server.stop_siginfo.si_signo, 9);
    // Backward, to the start: a silent stop.
    let (search, _) = ReverseStep::begin(server.timeline.as_ref().unwrap(), RunCommand::RunContinue, 0);
    let exit = search.finish(Some(debuggee_task()));
    assert!(is_last_thread_exit(&exit));
    let stop = server.maybe_notify_stop(&cont(RunDirection::RunBackward), &exit);
    assert_eq!(
        stop,
        Some(StopNotification {
            threadid: GdbThreadId { pid: 100, tid: 100 },
            sig: None,
            watch_addr: 0
        })
    );
    assert_eq!(server.stop_siginfo.si_signo, 0);
    // A client that cannot run backwards is not told of the exit.
    let mut exit = exit;
    server.features.reverse_execution = false;
    assert_eq!(server.maybe_notify_stop(&cont(RunDirection::RunForward), &exit), None);
    // Nor is anyone told of the exit of a thread that is not the last.
    server.features.reverse_execution = true;
    exit.task = Some(TaskInfo { thread_group_size: 2, ..debuggee_task() });
    assert!(!is_last_thread_exit(&exit));
    assert_eq!(server.maybe_notify_stop(&cont(RunDirection::RunForward), &exit), None);
}

#[test]
fn avx_cpu_features() {
    let regs = Registers::new(SupportedArch::X64);
    let extra = ExtraRegisters::new();
    let mut server = server_at(1);
    // Neither AVX nor OSXSAVE, and one without the other: no AVX.
    for ecx in [0u32, 0x1000_0000, 0x0800_0000] {
        assert_eq!(get_cpu_features(SupportedArch::X64, ecx), 0x1);
        server.await_connection(SupportedArch::X64, ecx, GdbConnectionFeatures::default());
        let rs = server.dispatch_regs_request(&regs, &extra);
        assert_eq!(rs.len(), 58);
        assert_eq!(rs.last().unwrap().name, 57);
    }
    assert_eq!(get_cpu_features(SupportedArch::X64, 0x1800_0000), 0x3);
    assert_eq!(get_cpu_features(SupportedArch::X64, 0xffff_ffff), 0x3);
    server.await_connection(SupportedArch::X64, 0x1800_0000, GdbConnectionFeatures::default());
    let rs = server.dispatch_regs_request(&regs, &extra);
    assert_eq!(rs.len(), 76);
    assert_eq!(rs.last().unwrap().name, 75);
    for (i, r) in rs.iter().enumerate() {
        assert_eq!(r.name as usize, i);
    }
    // x86.
    let regs = Registers::new(SupportedArch::X86);
    assert_eq!(get_cpu_features(SupportedArch::X86, 0), 0);
    assert_eq!(get_cpu_features(SupportedArch::X86, 0x1800_0000), 0x2);
    server.await_connection(SupportedArch::X86, 0, GdbConnectionFeatures::default());
    assert_eq!(server.dispatch_regs_request(&regs, &extra).len(), 42);
    server.await_connection(SupportedArch::X86, 0x1800_0000, GdbConnectionFeatures::default());
    assert_eq!(server.dispatch_regs_request(&regs, &extra).len(), 50);
}

#[test]
fn registers_are_told_by_their_size() {
    let mut regs = Registers::new(SupportedArch::X64);
    regs.ax = 0x1122_3344_5566_7788;
    regs.flags = 0x246;
    let mut extra = ExtraRegisters::new();
    extra.values.push(ExtraRegisterValue { name: 24, bytes: vec![1, 2, 3, 4, 5, 6, 7, 8, 9, 10] });
    extra.values.push(ExtraRegisterValue { name: 32, bytes: vec![0x7f, 0x03] });
    extra.values.push(ExtraRegisterValue { name: 33, bytes: vec![0x5a] });
    let rax = GdbServer::get_reg(&regs, &extra, 0);
    assert!(rax.defined);
    assert_eq!(rax.size, 8);
    assert!(matches!(rax.value, GdbRegisterValueData::Value8(0x1122_3344_5566_7788)));
    let eflags = GdbServer::get_reg(&regs, &extra, 17);
    assert_eq!(eflags.size, 4);
    assert!(matches!(eflags.value, GdbRegisterValueData::Value4(0x246)));
    let st0 = GdbServer::get_reg(&regs, &extra, 24);
    assert_eq!(st0.size, 10);
    match st0.value {
        GdbRegisterValueData::ValueGeneric(b) => {
            assert_eq!(b, vec![1, 2, 3, 4, 5, 6, 7, 8, 9, 10, 0, 0, 0, 0, 0, 0])
        }
        _ => panic!("ten bytes are no number"),
    }
    let fctrl = GdbServer::get_reg(&regs, &extra, 32);
    assert!(matches!(fctrl.value, GdbRegisterValueData::Value2(0x037f)));
    let fstat = GdbServer::get_reg(&regs, &extra, 33);
    assert!(matches!(fstat.value, GdbRegisterValueData::Value1(0x5a)));
    let missing = GdbServer::get_reg(&regs, &extra, 60);
    assert!(!missing.defined);
    assert_eq!(missing.size, 0);
    assert_eq!(missing.name, 60);
    assert_eq!(get_reg(&regs, &extra, 60), None);
    assert_eq!(get_reg(&regs, &extra, 0), Some(vec![0x88, 0x77, 0x66, 0x55, 0x44, 0x33, 0x22, 0x11]));
    // x86 registers have four bytes.
    let mut regs = Registers::new(SupportedArch::X86);
    regs.bx = 0xdead_beef;
    regs.orig_ax = 0xffff_ffff;
    assert_eq!(get_reg(&regs, &extra, 3), Some(vec![0xef, 0xbe, 0xad, 0xde]));
    assert_eq!(get_reg(&regs, &extra, 41), Some(vec![0xff; 4]));
    assert_eq!(get_reg(&regs, &extra, 16), None);
}

#[test]
fn debugger_is_attached_at_the_target() {
    let target = Target { pid: Some(100), require_exec: true, event: 5 };
    let mut server = GdbServer::new(at(3), session_at(3), &target);
    assert!(!server.at_target());
    assert_eq!(
        server.replay_to_target_step(ReplayStatus::ReplayContinue, at(5), session_at(5)),
        ToTarget::KeepReplaying
    );
    assert_eq!(
        server.replay_to_target_step(ReplayStatus::ReplayContinue, at(6), session_at(6)),
        ToTarget::AtTarget
    );
    // Not for another process, not before exec, not in the middle of an
    // event, not before the first exec, not where no checkpoint can be
    // taken.
    let other = TaskInfo { tgid: 101, ..debuggee_task() };
    let mut s = session_at(7);
    s.current_task = Some(other);
    assert_eq!(
        server.replay_to_target_step(ReplayStatus::ReplayContinue, at(7), s),
        ToTarget::KeepReplaying
    );
    let mut s = session_at(7);
    s.current_task = Some(TaskInfo { execed: false, ..debuggee_task() });
    assert_eq!(
        server.replay_to_target_step(ReplayStatus::ReplayContinue, at(7), s),
        ToTarget::KeepReplaying
    );
    assert_eq!(
        server.replay_to_target_step(
            ReplayStatus::ReplayContinue,
            Mark { step_key: 1, ..at(7) },
            session_at(7)
        ),
        ToTarget::KeepReplaying
    );
    let mut s = session_at(8);
    s.done_initial_exec = false;
    assert_eq!(
        server.replay_to_target_step(ReplayStatus::ReplayContinue, at(8), s),
        ToTarget::KeepReplaying
    );
    let mut s = session_at(8);
    s.can_clone = false;
    assert_eq!(
        server.replay_to_target_step(ReplayStatus::ReplayContinue, at(8), s),
        ToTarget::KeepReplaying
    );
    let mut s = session_at(8);
    s.current_task = None;
    assert_eq!(
        server.replay_to_target_step(ReplayStatus::ReplayContinue, at(8), s),
        ToTarget::KeepReplaying
    );
    // An interrupt attaches it wherever the replay stands.
    server.interrupt_replay_to_target();
    let mut s = session_at(8);
    s.current_task = Some(other);
    assert_eq!(
        server.replay_to_target_step(ReplayStatus::ReplayContinue, at(8), s),
        ToTarget::AtTarget
    );
    let mut s = session_at(9);
    s.can_clone = false;
    s.done_initial_exec = false;
    s.current_task = None;
    assert_eq!(
        server.replay_to_target_step(ReplayStatus::ReplayContinue, at(9), s),
        ToTarget::AtTarget
    );
    assert!(server.at_target());
    assert_eq!(
        server.replay_to_target_step(ReplayStatus::ReplayExited, at(9), session_at(9)),
        ToTarget::TraceEnded
    );
}

#[test]
fn activation_pins_a_restart_checkpoint() {
    let target = Target { pid: None, require_exec: true, event: 5 };
    let mut server = GdbServer::new(at(6), session_at(6), &target);
    assert_eq!(server.final_event, u64::MAX);
    server.prepare_to_serve(4);
    assert_eq!(server.debuggee_tguid, None);
    assert_eq!(server.timeline.as_ref().unwrap().reverse_execution_barrier_event, 4);
    assert_eq!(
        server.activate_debugger(),
        ActivationNotice::ReachedTarget { tgid: 100, event: 6 }
    );
    assert_eq!(server.debuggee_tguid, Some(ThreadGroupUid { tid: 100, serial: 1 }));
    assert_eq!(server.target, Target { pid: Some(100), require_exec: false, event: 6 });
    assert_eq!(server.last_continue_tuid, Some(TaskUid { tid: 100, serial: 1 }));
    assert_eq!(server.last_query_tuid, Some(TaskUid { tid: 100, serial: 1 }));
    let c = server.debugger_restart_checkpoint.as_ref().unwrap();
    assert_eq!(c.mark, at(6));
    assert_eq!(c.is_explicit, ExplicitCheckpoint::Explicit);
    assert_eq!(c.where_, "???");
    assert_eq!(server.timeline.as_ref().unwrap().checkpoints.len(), 1);
    // The debuggee stays the debuggee.
    let mut s = session_at(7);
    s.current_task = Some(TaskInfo {
        tguid: ThreadGroupUid { tid: 200, serial: 2 },
        ..debuggee_task()
    });
    step_to(&mut server, 7);
    let mut timeline = server.timeline.take().unwrap();
    timeline.replay_step_forward(at(7), s);
    server.timeline = Some(timeline);
    server.prepare_to_serve(0);
    server.activate_debugger();
    assert_eq!(server.debuggee_tguid, Some(ThreadGroupUid { tid: 100, serial: 1 }));
    assert_eq!(server.last_continue_tuid, Some(TaskUid { tid: 100, serial: 1 }));
    assert_eq!(server.timeline.as_ref().unwrap().reverse_execution_barrier_event, 4);
    // An interrupted replay says so.
    let target = Target { pid: Some(5), require_exec: false, event: 0 };
    let mut server = GdbServer::new(at(2), session_at(2), &target);
    server.interrupt_replay_to_target();
    assert_eq!(server.activate_debugger(), ActivationNotice::Interrupted { tgid: 100, event: 2 });
    // Where no checkpoint can be taken the state is only named.
    let mut s = session_at(2);
    s.can_clone = false;
    let mut server = GdbServer::new(at(2), s, &Target::default());
    assert_eq!(server.activate_debugger(), ActivationNotice::Quiet);
    let c = server.debugger_restart_checkpoint.as_ref().unwrap();
    assert_eq!(c.is_explicit, ExplicitCheckpoint::NotExplicit);
    assert!(server.timeline.as_ref().unwrap().checkpoints.is_empty());
    assert_eq!(server.timeline.as_ref().unwrap().marks, vec![at(2)]);
}

#[test]
fn restart_from_previous_goes_to_the_restart_checkpoint() {
    let mut server = server_at(4);
    step_to(&mut server, 9);
    let action = server.restart_session(&restart(GdbRestartType::RestartFromPrevious, 0));
    match action {
        RestartAction::SeekToCheckpoint { checkpoint, plan } => {
            assert_eq!(checkpoint.mark, at(4));
            assert_eq!(plan, SeekPlan { restart_from: Some(at(4)), target: at(4) });
            server.checkpoint_restored(checkpoint, session_at(4));
        }
        _ => panic!("the debugger was activated"),
    }
    // The old hold was let go and a new one taken: one checkpoint, held
    // once.
    let timeline = server.timeline.as_ref().unwrap();
    assert_eq!(timeline.current, at(4));
    assert_eq!(timeline.checkpoints.len(), 1);
    assert_eq!(timeline.checkpoints[0].refcount, 1);
}

#[test]
fn restart_from_event_replays_to_the_event() {
    let mut server = server_at(4);
    server.final_event = 50;
    step_to(&mut server, 20);
    let action = server.restart_session(&restart(GdbRestartType::RestartFromEvent, 10));
    match action {
        RestartAction::SeekToEvent { event_plan } => {
            assert_eq!(event_plan, Ok(SeekPlan { restart_from: Some(at(4)), target: Mark::before_event(10) }))
        }
        _ => panic!("a restart from an event seeks to the event"),
    }
    assert_eq!(server.target.event, 10);
    assert_eq!(server.target.pid, Some(100));
    assert!(server.interrupt_pending);
    assert!(!server.stop_replaying_to_target);
    // The event is kept before the end of the trace.
    let action = server.restart_session(&restart(GdbRestartType::RestartFromEvent, 70));
    assert!(matches!(action, RestartAction::SeekToEvent { .. }));
    assert_eq!(server.target.event, 49);
    // The forward replay stops at the target.
    let mut server = server_at(4);
    server.restart_session(&restart(GdbRestartType::RestartFromEvent, 10));
    server.timeline.as_mut().unwrap().seek_to_mark(&at(9), session_at(9));
    let result = ReplayResult {
        status: ReplayStatus::ReplayContinue,
        break_status: no_break(debuggee_task()),
    };
    assert!(!server.restart_step(&result, at(10), session_at(10)));
    assert!(server.restart_step(&result, at(11), session_at(11)));
    assert!(!server.in_debuggee_end_state);
    // Or where the debuggee is about to exit.
    let mut exit = no_break(debuggee_task());
    exit.task_exit = true;
    let result = ReplayResult { status: ReplayStatus::ReplayContinue, break_status: exit };
    let mut server = server_at(4);
    server.restart_session(&restart(GdbRestartType::RestartFromEvent, 10));
    assert!(server.restart_step(&result, at(5), session_at(5)));
    assert!(server.in_debuggee_end_state);
}

#[test]
fn restart_below_the_barrier_is_the_start_of_time() {
    let mut server = GdbServer::new(at(8), session_at(8), &Target::default());
    server.prepare_to_serve(6);
    server.await_connection(SupportedArch::X64, 0, GdbConnectionFeatures::default());
    server.activate_debugger();
    match server.restart_session(&restart(GdbRestartType::RestartFromEvent, 3)) {
        RestartAction::SeekToEvent { event_plan } => assert!(event_plan.is_err()),
        _ => panic!("a restart from an event seeks to the event"),
    }
}

#[test]
fn stops_are_told_with_their_signal() {
    let mut server = server_at(1);
    let task = debuggee_task();
    // Nothing happened: nothing is told.
    assert_eq!(server.maybe_notify_stop(&cont(RunDirection::RunForward), &no_break(task)), None);
    // A watchpoint.
    let mut b = no_break(task);
    b.watchpoints_hit = vec![
        WatchConfig { addr: 0x6000, num_bytes: 4, type_: WatchType::WatchWrite },
        WatchConfig { addr: 0x7000, num_bytes: 4, type_: WatchType::WatchWrite },
    ];
    assert_eq!(
        server.maybe_notify_stop(&cont(RunDirection::RunForward), &b),
        Some(StopNotification {
            threadid: GdbThreadId { pid: 100, tid: 100 },
            sig: Some(5),
            watch_addr: 0x6000
        })
    );
    // A breakpoint, a single step.
    let mut b = no_break(task);
    b.breakpoint_hit = true;
    assert_eq!(
        server.maybe_notify_stop(&cont(RunDirection::RunForward), &b).unwrap().sig,
        Some(5)
    );
    let mut b = no_break(task);
    b.singlestep_complete = true;
    assert_eq!(
        server.maybe_notify_stop(&cont(RunDirection::RunBackward), &b).unwrap().sig,
        Some(5)
    );
    // A signal goes before a breakpoint.
    b.signal = Some(SigInfo { si_signo: 11, si_errno: 0, si_code: 1, si_addr: 0x10 });
    assert_eq!(
        server.maybe_notify_stop(&cont(RunDirection::RunForward), &b).unwrap().sig,
        Some(11)
    );
    assert_eq!(server.stop_siginfo.si_addr, 0x10);
    // A task about to return from exec is the task of the stop, which is
    // silent.
    let execed = TaskInfo { tuid: TaskUid { tid: 105, serial: 9 }, rec_tid: 105, ..task };
    let mut s = session_at(3);
    s.current_task = Some(execed);
    s.next_step_is_successful_exec_exit = true;
    server.timeline.as_mut().unwrap().replay_step_forward(at(3), s);
    assert_eq!(is_in_exec(server.timeline.as_ref().unwrap()), Some(execed));
    assert_eq!(
        server.maybe_notify_stop(&cont(RunDirection::RunForward), &b),
        Some(StopNotification {
            threadid: GdbThreadId { pid: 100, tid: 105 },
            sig: None,
            watch_addr: 0
        })
    );
    assert_eq!(server.last_continue_tuid, Some(TaskUid { tid: 105, serial: 9 }));
    assert_eq!(server.last_query_tuid, Some(TaskUid { tid: 105, serial: 9 }));
    // A stop of another thread group is not told.
    server.timeline.as_mut().unwrap().replay_step_forward(at(4), session_at(4));
    let stranger = TaskInfo { tguid: ThreadGroupUid { tid: 300, serial: 3 }, ..task };
    let mut b = no_break(stranger);
    b.breakpoint_hit = true;
    assert_eq!(server.maybe_notify_stop(&cont(RunDirection::RunForward), &b), None);
    assert_eq!(server.last_continue_tuid, Some(TaskUid { tid: 105, serial: 9 }));
}

#[test]
fn interrupt_stops_the_next_resumption() {
    let mut server = server_at(1);
    // Activation leaves no interrupt behind.
    assert_eq!(
        server.resume(&cont(RunDirection::RunBackward)),
        ResumeAction::Run { direction: RunDirection::RunBackward }
    );
    server.interrupt();
    assert!(server.interrupt_pending);
    assert!(matches!(
        server.resume(&cont(RunDirection::RunForward)),
        ResumeAction::StopAtOnce { .. }
    ));
    assert!(!server.interrupt_pending);
    // At the end of the debuggee the stop is a kill.
    server.interrupt();
    server.in_debuggee_end_state = true;
    match server.resume(&cont(RunDirection::RunForward)) {
        ResumeAction::StopAtOnce { stop } => assert_eq!(stop.sig, Some(9)),
        _ => panic!("an interrupt is pending"),
    }
    // The stop is told whatever task is current, and without one.
    let mut stranger = debuggee_task();
    stranger.tguid = ThreadGroupUid { tid: 200, serial: 2 };
    stranger.tuid = TaskUid { tid: 201, serial: 3 };
    stranger.tgid = 200;
    stranger.rec_tid = 201;
    server.in_debuggee_end_state = false;
    server.timeline.as_mut().unwrap().session.current_task = Some(stranger);
    server.interrupt();
    let position = server.timeline_unwrap().current;
    assert_eq!(
        server.resume(&cont(RunDirection::RunForward)),
        ResumeAction::StopAtOnce {
            stop: StopNotification {
                threadid: GdbThreadId { pid: 200, tid: 201 },
                sig: None,
                watch_addr: 0
            }
        }
    );
    assert!(!server.interrupt_pending);
    assert_eq!(server.timeline_unwrap().current, position);
    assert_eq!(server.last_continue_tuid, Some(TaskUid { tid: 201, serial: 3 }));
    server.timeline.as_mut().unwrap().session.current_task = None;
    server.interrupt();
    assert_eq!(
        server.resume(&cont(RunDirection::RunBackward)),
        ResumeAction::StopAtOnce {
            stop: StopNotification { threadid: GdbThreadId::any(), sig: None, watch_addr: 0 }
        }
    );
    assert_eq!(server.last_continue_tuid, Some(TaskUid { tid: 201, serial: 3 }));
}

#[test]
fn checkpoints_hold_and_release_their_state() {
    let mut server = server_at(1);
    step_to(&mut server, 5);
    server.add_checkpoint(1, "a");
    step_to(&mut server, 9);
    server.add_checkpoint(2, "b");
    assert_eq!(server.timeline.as_ref().unwrap().checkpoints.len(), 3);
    assert!(server.delete_checkpoint(1));
    assert!(!server.delete_checkpoint(1));
    assert_eq!(server.checkpoints.len(), 1);
    let timeline = server.timeline.as_ref().unwrap();
    assert_eq!(timeline.checkpoints.len(), 2);
    assert_eq!(timeline.checkpoints[0].mark, at(1));
    assert_eq!(timeline.checkpoints[1].mark, at(9));
    // The marks stay.
    assert_eq!(timeline.marks, vec![at(1), at(5), at(9)]);
    // Every kept checkpoint can be sought and named again.
    let mark = server.checkpoints[&2].mark;
    let timeline = server.timeline.as_mut().unwrap();
    timeline.seek_to_mark(&mark, session_at(9));
    assert_eq!(timeline.mark(), mark);
    let copy = server.checkpoints[&2].duplicate();
    assert_eq!(copy.where_, "b");
    assert_eq!(copy.mark, mark);
    let mut tl = ReplayTimeline::new(at(1), session_at(1));
    let c = Checkpoint::new(&mut tl, None, ExplicitCheckpoint::NotExplicit, "here");
    assert_eq!(c.mark, at(1));
    assert!(tl.checkpoints.is_empty());
}

#[test]
fn watch_requests_map_to_watch_types() {
    assert_eq!(watchpoint_type(GdbRequestType::DREQ_SET_HW_BREAK), WatchType::WatchExec);
    assert_eq!(watchpoint_type(GdbRequestType::DREQ_REMOVE_HW_BREAK), WatchType::WatchExec);
    assert_eq!(watchpoint_type(GdbRequestType::DREQ_SET_WR_WATCH), WatchType::WatchWrite);
    assert_eq!(watchpoint_type(GdbRequestType::DREQ_REMOVE_WR_WATCH), WatchType::WatchWrite);
    assert_eq!(watchpoint_type(GdbRequestType::DREQ_SET_RD_WATCH), WatchType::WatchReadWrite);
    assert_eq!(watchpoint_type(GdbRequestType::DREQ_REMOVE_RD_WATCH), WatchType::WatchReadWrite);
    assert_eq!(watchpoint_type(GdbRequestType::DREQ_SET_RDWR_WATCH), WatchType::WatchReadWrite);
    assert_eq!(watchpoint_type(GdbRequestType::DREQ_REMOVE_RDWR_WATCH), WatchType::WatchReadWrite);
    let mut server = server_at(1);
    let watch = |type_: GdbRequestType| GdbRequest {
        type_,
        value: GdbRequestValue::GdbRequestWatch(GdbWatch {
            addr: 0x6000,
            kind: 8,
            conditions: Vec::new(),
        }),
        target: GdbThreadId::any(),
        suppress_debugger_stop: false,
    };
    assert_eq!(
        server.dispatch_watch_request(&watch(GdbRequestType::DREQ_SET_RD_WATCH)),
        WatchOutcome::NowSet
    );
    let w = server.timeline.as_ref().unwrap().watchpoints.clone();
    assert_eq!(w.len(), 1);
    assert_eq!((w[0].addr, w[0].num_bytes, w[0].type_), (0x6000, 8, WatchType::WatchReadWrite));
    assert_eq!(
        server.dispatch_watch_request(&watch(GdbRequestType::DREQ_REMOVE_RDWR_WATCH)),
        WatchOutcome::NowRemoved
    );
    assert!(server.timeline.as_ref().unwrap().watchpoints.is_empty());
    // A negative length is refused, and nothing is set.
    let mut bad = watch(GdbRequestType::DREQ_SET_WR_WATCH);
    bad.value = GdbRequestValue::GdbRequestWatch(GdbWatch {
        addr: 0x6000,
        kind: -1,
        conditions: Vec::new(),
    });
    assert_eq!(server.dispatch_watch_request(&bad), WatchOutcome::Refused);
    assert!(server.timeline.as_ref().unwrap().watchpoints.is_empty());
}

#[test]
fn condition_holds_unless_an_expression_is_zero() {
    let c = GdbBreakpointCondition::new(&vec![vec![0x22, 0x01], vec![0x27], vec![]]);
    assert_eq!(c.expressions.len(), 3);
    assert_eq!(c.expressions[0].bytecode, vec![0x22, 0x01]);
    assert!(c.evaluate(&vec![Some(1), Some(-3), None]));
    assert!(c.evaluate(&vec![None, None, None]));
    assert!(!c.evaluate(&vec![Some(1), Some(0), None]));
    assert!(!c.evaluate(&vec![Some(0), Some(0), Some(0)]));
    let watch = |conditions: Vec<Vec<u8>>| GdbRequest {
        type_: GdbRequestType::DREQ_SET_SW_BREAK,
        value: GdbRequestValue::GdbRequestWatch(GdbWatch { addr: 1, kind: 1, conditions }),
        target: GdbThreadId::any(),
        suppress_debugger_stop: false,
    };
    assert!(breakpoint_condition(&watch(Vec::new())).is_none());
    let c = breakpoint_condition(&watch(vec![vec![1, 2, 3]])).unwrap();
    assert_eq!(c.expressions.len(), 1);
    assert_eq!(c.expressions[0].bytecode, vec![1, 2, 3]);
}

#[test]
fn threads_are_named_and_matched() {
    let t = debuggee_task();
    assert_eq!(get_threadid(&t), GdbThreadId { pid: 100, tid: 100 });
    let tuid = TaskUid { tid: 77, serial: 3 };
    assert_eq!(get_threadid_from_tuid(Some(&t), tuid), GdbThreadId { pid: 100, tid: 77 });
    assert_eq!(get_threadid_from_tuid(None, tuid), GdbThreadId { pid: 0, tid: 77 });
    assert!(matches_threadid(&t, GdbThreadId::any()));
    assert!(matches_threadid(&t, GdbThreadId::all()));
    assert!(matches_threadid(&t, GdbThreadId::new(100, 0)));
    assert!(matches_threadid(&t, GdbThreadId::new(0, 100)));
    assert!(!matches_threadid(&t, GdbThreadId::new(101, 100)));
    assert!(!matches_threadid(&t, GdbThreadId::new(100, 101)));
}

#[test]
fn port_is_the_users_or_derived_from_the_pid() {
    assert_eq!(initial_port(Some(1234), 99), (1234, ProbePort::DontProbe));
    assert_eq!(initial_port(None, 99), (99, ProbePort::ProbePort));
    assert_eq!(initial_port(None, 0x12_3456), (0x3456, ProbePort::ProbePort));
    assert_eq!(initial_port(None, -1), (0xffff, ProbePort::ProbePort));
    let mut flags = ConnectionFlags::default();
    assert!(flags.dbg_port.is_none());
    assert!(!flags.keep_listening);
    let (port, probe) = choose_port(&flags);
    assert_eq!(probe, ProbePort::ProbePort);
    assert_eq!(port, nix::unistd::getpid().as_raw() as u16);
    flags.dbg_port = Some(4000);
    assert_eq!(choose_port(&flags), (4000, ProbePort::DontProbe));
    flags.debugger_params_write_pipe = Some(5);
    assert_eq!(flags.debugger_params_write_pipe_unwrap(), 5);
}

#[test]
fn debugger_params_are_framed() {
    let bytes = debugger_params(&b"/bin/ls".to_vec(), &b"127.0.0.1".to_vec(), 0x1234).unwrap();
    let mut expected = b"/bin/ls\0127.0.0.1".to_vec();
    expected.extend_from_slice(&[0; 7]);
    expected.extend_from_slice(&[0x34, 0x12]);
    assert_eq!(bytes, expected);
    assert_eq!(
        debugger_params(&Vec::new(), &b"255.255.255.255\0".to_vec(), 1).unwrap().len(),
        1 + 16 + 2
    );
    assert!(debugger_params(&Vec::new(), &vec![b'1'; 17], 1).is_none());
}

#[test]
fn find_gives_the_first_occurrence() {
    assert_eq!(find(&b"abcabc".to_vec(), &b"bc".to_vec()), Some(1));
    assert_eq!(find(&b"abcabc".to_vec(), &b"abcabc".to_vec()), Some(0));
    assert_eq!(find(&b"abcabc".to_vec(), &b"cab".to_vec()), Some(2));
    assert_eq!(find(&b"abcabc".to_vec(), &b"abd".to_vec()), None);
    assert_eq!(find(&b"ab".to_vec(), &b"abc".to_vec()), None);
    assert_eq!(find(&b"ab".to_vec(), &Vec::new()), Some(0));
}

#[test]
fn memory_is_searched_page_by_page() {
    let mut mem = TraceeMemory::new();
    mem.map_zeroed(0x1000, 0x3000);
    mem.map_zeroed(0x8000, 0x1000);
    assert!(mem.write_bytes(0x1ffe, &b"needle".to_vec()));
    assert!(mem.write_bytes(0x3100, &b"needle".to_vec()));
    assert!(mem.write_bytes(0x8010, &b"needle".to_vec()));
    let maps = vec![
        Mapping { start: 0x1000, end: 0x4000, is_patch_stubs: false },
        Mapping { start: 0x8000, end: 0x9000, is_patch_stubs: false },
    ];
    let needle = b"needle".to_vec();
    let everywhere = MemoryRange::from_range(0, 0x1_0000);
    // A match across a page boundary is found.
    assert_eq!(search_memory(&mem, &maps, everywhere, &needle), Some(0x1ffe));
    assert_eq!(
        search_memory(&mem, &maps, MemoryRange::from_range(0x1fff, 0x1_0000), &needle),
        Some(0x3100)
    );
    assert_eq!(
        search_memory(&mem, &maps, MemoryRange::from_range(0x3101, 0x1_0000), &needle),
        Some(0x8010)
    );
    assert_eq!(
        search_memory(&mem, &maps, MemoryRange::from_range(0x8011, 0x1_0000), &needle),
        None
    );
    // The match has to lie in the range.
    assert_eq!(
        search_memory(&mem, &maps, MemoryRange::from_range(0x1000, 0x2003), &needle),
        None
    );
    assert_eq!(
        search_memory(&mem, &maps, MemoryRange::from_range(0x1000, 0x2004), &needle),
        Some(0x1ffe)
    );
    assert_eq!(search_memory(&mem, &Vec::new(), everywhere, &needle), None);
    assert_eq!(MemoryRange::from_range(5, 3).size(), 0);
    assert_eq!(
        MemoryRange::from_range(0, 10).intersect(MemoryRange::from_range(4, 20)),
        MemoryRange { start: 4, end: 10 }
    );
}

#[test]
fn init_script_declares_commands_and_sets_gdb_up() {
    let mut handler = GdbCommandHandler::new();
    let script = GdbServer::init_script(&handler);
    assert_eq!(script, rd::gdb_server::gdb_rd_macros());
    assert!(script.contains("define restart\n  run c$arg0\nend\n"));
    assert!(script.contains("define hookpost-reverse-continue\n  rd-set-suppress-run-hook 1\nend\n"));
    assert!(script.contains("define hookpost-run\n  rd-set-suppress-run-hook 0\nend\n"));
    assert!(script.contains("set unwindonsignal on\nhandle SIGURG stop\nset prompt (rd)\n"));
    assert!(script.contains("if ver < 71101:\n    gdb.execute('set target-async 0')"));
    assert!(script.contains("if ver == 71100:\n    gdb.write("));
    handler.register_command(GdbCommand {
        name: "when".to_string(),
        documentation: "Print the current event.".to_string(),
    });
    handler.register_command(GdbCommand { name: "elapsed".to_string(), documentation: String::new() });
    assert_eq!(
        handler.gdb_macros(),
        "python RDCmd('when')\ndocument when\nPrint the current event.\nend\npython RDCmd('elapsed')\n"
    );
    assert!(GdbServer::init_script(&handler).starts_with("python RDCmd('when')\n"));
    assert_eq!(rd::gdb_server::gdb_rd_macros_init(&handler), GdbServer::init_script(&handler));
    assert!(GdbServer::init_script(&handler).ends_with("maint set target-async 0')\nend\n"));
    assert_eq!(handler.command_for_name("elapsed"), Some(1));
    assert_eq!(handler.command_for_name("when"), Some(0));
    assert_eq!(handler.command_for_name("where"), None);
    assert_eq!(GdbCommandHandler::cmd_end_diversion(), "RDCmd_EndDiversion");
}

#[test]
fn emergency_server_has_no_timeline() {
    let server = GdbServer::new_from(3, GdbConnectionFeatures { reverse_execution: false }, &debuggee_task());
    assert!(server.timeline.is_none());
    assert!(server.connected);
    assert_eq!(server.cpu_features, 3);
    assert_eq!(server.debuggee_tguid, Some(ThreadGroupUid { tid: 100, serial: 1 }));
    assert_eq!(server.last_continue_tuid, Some(TaskUid { tid: 100, serial: 1 }));
    assert_eq!(server.last_query_tuid, None);
    let server = GdbServer::new(at(1), session_at(1), &Target::default());
    assert_eq!(server.timeline_unwrap().current, at(1));
    assert!(!server.connected);
    assert_eq!(server.debuggee_tguid, None);
}

#[test]
fn debugger_files_get_the_least_free_descriptor() {
    let mut server = server_at(1);
    assert_eq!(server.file_scope_pid, 0);
    server.set_file_scope(100);
    assert_eq!(server.file_scope_pid, 100);
    assert_eq!(server.open_file(40), Some(0));
    assert_eq!(server.open_file(41), Some(1));
    assert_eq!(server.open_file(42), Some(2));
    assert_eq!(server.file(1), Some(41));
    assert_eq!(server.close_file(1), Some(41));
    assert_eq!(server.close_file(1), None);
    assert_eq!(server.file(1), None);
    assert_eq!(server.open_file(43), Some(1));
    assert_eq!(server.open_file(44), Some(3));
    assert_eq!(server.file(3), Some(44));
}

#[test]
fn a_debugger_that_goes_leaves_no_breakpoints() {
    let mut server = server_at(1);
    server.await_connection(SupportedArch::X64, 0, GdbConnectionFeatures::default());
    assert!(server.connected);
    server.timeline.as_mut().unwrap().set_breakpoint(0x4000);
    server.timeline.as_mut().unwrap().set_watchpoint(0x6000, 8, WatchType::WatchWrite);
    let marks = server.timeline.as_ref().unwrap().marks.clone();
    server.connection_closed();
    assert!(!server.connected);
    let timeline = server.timeline.as_ref().unwrap();
    assert!(timeline.breakpoints.is_empty() && timeline.watchpoints.is_empty());
    assert_eq!(timeline.marks, marks);
}

#[test]
fn a_stop_of_a_task_that_is_gone_is_not_told() {
    let mut server = server_at(1);
    let mut gone = no_break(debuggee_task());
    gone.task = None;
    gone.breakpoint_hit = true;
    gone.task_exit = true;
    assert!(!is_last_thread_exit(&gone));
    let last = server.last_continue_tuid;
    assert_eq!(server.maybe_notify_stop(&cont(RunDirection::RunForward), &gone), None);
    assert_eq!(server.stop_siginfo.si_signo, 5);
    assert_eq!(server.last_continue_tuid, last);
}

#[test]
fn restart_from_an_event_does_not_go_beyond_the_last() {
    let mut server = server_at(1);
    server.final_event = 9;
    let action = server.restart_session(&restart(GdbRestartType::RestartFromEvent, 50));
    assert_eq!(server.target.event, 8);
    assert!(matches!(action, RestartAction::SeekToEvent { event_plan: Ok(_) }));
    server.final_event = 0;
    server.restart_session(&restart(GdbRestartType::RestartFromEvent, 50));
    assert_eq!(server.target.event, 0);
    server.final_event = u64::MAX;
    server.restart_session(&restart(GdbRestartType::RestartFromEvent, 50));
    assert_eq!(server.target.event, 50);
}

#[test]
fn a_server_for_a_live_task_has_no_timeline() {
    let live = GdbServer::new_from(0, GdbConnectionFeatures::default(), &debuggee_task());
    assert!(!live.has_timeline());
    assert!(server_at(1).has_timeline());
}

fn request(type_: GdbRequestType, value: GdbRequestValue) -> GdbRequest {
    GdbRequest { type_, value, target: GdbThreadId::any(), suppress_debugger_stop: false }
}

#[test]
fn requests_hand_out_what_they_carry() {
    let req = request(
        GdbRequestType::DREQ_GET_REG,
        GdbRequestValue::GdbRequestRegisterValue(GdbRegisterValue {
            name: 16,
            value: GdbRegisterValueData::Value8(0),
            defined: false,
            size: 8,
        }),
    );
    assert_eq!(req.reg().name, 16);
    let req = request(GdbRequestType::DREQ_RD_CMD, GdbRequestValue::GdbRequestText(b"when".to_vec()));
    assert_eq!(req.text(), &b"when".to_vec());
    let req = request(
        GdbRequestType::DREQ_FILE_SETFS,
        GdbRequestValue::GdbRequestFileSetfs(GdbFileSetfs { pid: 7 }),
    );
    assert_eq!(req.file_setfs().pid, 7);
    let req = request(
        GdbRequestType::DREQ_FILE_OPEN,
        GdbRequestValue::GdbRequestFileOpen(GdbFileOpen {
            file_name: "/proc/self/maps".to_string(),
            flags: 0,
            mode: 0o600,
        }),
    );
    assert_eq!(req.file_open().file_name, "/proc/self/maps");
    assert_eq!((req.file_open().flags, req.file_open().mode), (0, 0o600));
    let req = request(
        GdbRequestType::DREQ_FILE_PREAD,
        GdbRequestValue::GdbRequestFilePread(GdbFilePread { fd: 2, size: 4096, offset: 512 }),
    );
    assert_eq!((req.file_pread().fd, req.file_pread().size, req.file_pread().offset), (2, 4096, 512));
    let req = request(
        GdbRequestType::DREQ_FILE_CLOSE,
        GdbRequestValue::GdbRequestFileClose(GdbFileClose { fd: 2 }),
    );
    assert_eq!(req.file_close().fd, 2);
}

#[test]
fn file_requests_go_through_the_table_of_open_files() {
    let mut server = server_at(1);
    let setfs = request(
        GdbRequestType::DREQ_FILE_SETFS,
        GdbRequestValue::GdbRequestFileSetfs(GdbFileSetfs { pid: 100 }),
    );
    server.set_file_scope(setfs.file_setfs().pid);
    assert_eq!(server.file_scope_pid, 100);
    // The server's descriptor 40 is the debugger's file 0.
    let fd = server.open_file(40).unwrap();
    let pread = request(
        GdbRequestType::DREQ_FILE_PREAD,
        GdbRequestValue::GdbRequestFilePread(GdbFilePread { fd, size: 16, offset: 0 }),
    );
    assert_eq!(server.file(pread.file_pread().fd), Some(40));
    assert_eq!(server.file(fd + 1), None);
    let close = request(
        GdbRequestType::DREQ_FILE_CLOSE,
        GdbRequestValue::GdbRequestFileClose(GdbFileClose { fd }),
    );
    assert_eq!(server.close_file(close.file_close().fd), Some(40));
    assert_eq!(server.close_file(close.file_close().fd), None);
    assert_eq!(server.file(fd), None);
}

#[test]
fn symbols_are_asked_for_once_each_in_the_order_they_were_added() {
    let mut server = server_at(1);
    assert_eq!(server.next_symbol(), None);
    assert!(server.add_symbol("nptl_version".to_string()));
    assert!(server.add_symbol("_thread_db_sizeof_pthread".to_string()));
    assert!(!server.add_symbol("nptl_version".to_string()));
    assert_eq!(server.symbols.len(), 2);
    assert_eq!(server.next_symbol(), Some("nptl_version".to_string()));
    assert_eq!(server.next_symbol(), Some("_thread_db_sizeof_pthread".to_string()));
    assert_eq!(server.next_symbol(), None);
    // A symbol that was asked for can wait again.
    assert!(server.add_symbol("nptl_version".to_string()));
}

#[test]
fn search_gives_the_first_place_in_the_order_of_the_mappings() {
    let mut mem = TraceeMemory::new();
    mem.map_zeroed(0x1000, 0x2000);
    mem.map_zeroed(0x8000, 0x1000);
    assert!(mem.write_bytes(0x1800, &b"needle".to_vec()));
    assert!(mem.write_bytes(0x1200, &b"needle".to_vec()));
    assert!(mem.write_bytes(0x8010, &b"needle".to_vec()));
    let needle = b"needle".to_vec();
    let everywhere = MemoryRange::from_range(0, 0x1_0000);
    let low = Mapping { start: 0x1000, end: 0x3000, is_patch_stubs: false };
    let high = Mapping { start: 0x8000, end: 0x9000, is_patch_stubs: false };
    // The lowest address of the first mapping that has one.
    assert_eq!(search_memory(&mem, &vec![low, high], everywhere, &needle), Some(0x1200));
    assert_eq!(search_memory(&mem, &vec![high, low], everywhere, &needle), Some(0x8010));
    // A page that cannot be read from its start hides what it holds.
    let mut holed = TraceeMemory::new();
    holed.map_zeroed(0x1001, 0x1fff);
    assert!(holed.write_bytes(0x1200, &b"needle".to_vec()));
    assert!(holed.write_bytes(0x2200, &b"needle".to_vec()));
    assert_eq!(search_memory(&holed, &vec![low], everywhere, &needle), Some(0x2200));
    assert_eq!(
        search_memory(&holed, &vec![low], MemoryRange::from_range(0x1001, 0x1_0000), &needle),
        Some(0x1200)
    );
}

#[test]
fn checkpoint_kept_and_dropped_leaves_the_server_as_it_was() {
    let mut server = server_at(1);
    step_to(&mut server, 5);
    server.add_checkpoint(1, "a");
    step_to(&mut server, 9);
    let held = server.timeline_unwrap().checkpoints.clone();
    let ids: Vec<u64> = server.checkpoints.keys().copied().collect();
    server.add_checkpoint(2, "b");
    assert_eq!(server.timeline_unwrap().checkpoints.len(), held.len() + 1);
    assert!(server.delete_checkpoint(2));
    assert_eq!(server.timeline_unwrap().checkpoints, held);
    assert_eq!(server.checkpoints.keys().copied().collect::<Vec<u64>>(), ids);
    // The state keeps its name.
    assert!(server.timeline_unwrap().marks.contains(&at(9)));
    // Dropping a number that is not kept changes nothing.
    assert!(!server.delete_checkpoint(42));
    assert_eq!(server.timeline_unwrap().checkpoints, held);
    assert_eq!(server.checkpoints.len(), 1);
}
