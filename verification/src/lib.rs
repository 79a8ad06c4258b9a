//! Core of a deterministic record-and-replay debugger for Linux processes:
//! the record-time scratch-buffer protocol for blocking syscalls, the
//! seccomp-BPF filter rewriter, and the replay-side debugging engine that
//! answers a GDB client from a navigable replay timeline.
//!
//! Everything here computes on plain values. Whoever drives a real tracee
//! hands the library snapshots of registers and memory, performs the actions
//! the library decides on, and reports back what happened.

pub mod address_space;
pub mod arch_structs;
pub mod byte_codec;
pub mod debugger_loop;
pub mod fast_forward;
pub mod gdb_command_handler;
pub mod gdb_connection;
pub mod gdb_register;
pub mod gdb_server;
pub mod kernel_abi;
pub mod monitored_shared_memory;
pub mod param_size;
pub mod record_syscall;
pub mod record_task;
pub mod registers;
pub mod replay_timeline;
pub mod scratch_laws;
pub mod seccomp_bpf;
pub mod seccomp_filter_rewriter;
pub mod syscall_state_checks;
pub mod task_syscall_state;
pub mod trace_task_event;
pub mod tracee_memory;
