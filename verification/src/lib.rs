//! Bookkeeping and decisions of a process execution tracer.
//!
//! A tracer runs a command, follows every thread and process that the
//! command creates, and records their lifetimes and file accesses in a
//! trace. This library holds what such a tracer has to know and to decide:
//!
//! - [`command`] says which command lines can be run;
//! - [`database`] records the events of a trace and keeps them in order;
//! - [`events`] says what it means for a trace to be in order;
//! - [`processes`] keeps the registry of the threads that are traced;
//! - [`tracer`] says, for each event that the kernel reports, what becomes
//!   of the registry and of the trace, and what is to be done with the
//!   tracee.
//!
//! The library spawns nothing and waits for nothing. Its caller asks
//! [`trace`] what to spawn, spawns it, registers it with
//! [`Tracer::add_root`], hands each report of the kernel to
//! [`Tracer::handle_event`], carries out the [`Action`] that comes back, and
//! calls [`Tracer::finish`] when no tracee is left.

pub mod command;
pub mod database;
pub mod error;
pub mod events;
pub mod fileop;
pub mod processes;
pub mod status;
pub mod tracer;

pub use command::{arguments, check_command};
pub use database::{Database, ProcessId, Trace};
pub use error::Error;
pub use events::Event;
pub use fileop::FileOp;
pub use processes::{Processes, Thread, ThreadGroup, ThreadInfo};
pub use status::{ExitStatus, StopSignal};
pub use tracer::{
    trace, trace_arg0, Action, Launch, TraceOptions, TraceeEvent, Tracer, WaitEvent,
};
