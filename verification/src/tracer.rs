//! The decisions of the tracer: what each event that the kernel reports
//! does to the tracked processes and to the trace, and what has to be done
//! with the tracee next.

use nix::sys::signal::Signal;
use std::rc::Rc;
use vstd::pervasive::unreached;
use vstd::prelude::*;
use vstd::slice::slice_to_vec;

use crate::command::{
    argument_views, arguments, arguments_spec, check_command, nul_free, valid_command,
};
use crate::database::{Database, ProcessId, Trace};
use crate::error::Error;
use crate::events::{
    added, closed_log, exited, exits, lemma_exit_once, lemma_push_records, live, valid_log,
    EventView,
};
use crate::fileop::{FileOp, WDIR_BIT};
use crate::processes::{Processes, Thread, ThreadGroup, ThreadInfo};
use crate::status::{ExitStatus, StopSignal};

verus! {

/// What a tracee reports when it stops for an event of its own.
#[derive(Debug, Clone, Copy, PartialEq, Eq, Structural)]
pub enum TraceeEvent {
    /// The tracee created the thread or process `child`, which shares its
    /// address space if `is_thread`.
    Spawn { child: i32, is_thread: bool },
    /// The tracee replaced its program.
    Exec,
    /// Anything else.
    Other,
}

/// A change of state of a tracee, as the kernel reports it.
#[derive(Debug, Clone, Copy, PartialEq, Eq)]
pub enum WaitEvent {
    /// The thread returned with `code`.
    Exited { tid: i32, code: i32 },
    /// The thread was terminated by the signal `killer`.
    Signaled { tid: i32, killer: Signal },
    /// The thread was stopped by a signal.
    Stopped { tid: i32, signal: StopSignal },
    /// The thread stopped to report an event of its own.
    PtraceEvent { tid: i32, event: TraceeEvent },
    /// The thread stopped at the entry or exit of a system call.
    PtraceSyscall { tid: i32 },
    /// Any other report; it changes nothing.
    Other,
}

/// What has to be done after an event. To resume a thread is to let it run
/// to its next system call, without the signal that stopped it.
#[derive(Debug, Clone, Copy, PartialEq, Eq, Structural)]
pub enum Action {
    /// Nothing: wait for the next event.
    Wait,
    /// Install the tracing options on `tid` and leave it stopped.
    SetOptions { tid: i32 },
    /// Install the tracing options on `tid`, then resume it.
    Attach { tid: i32 },
    /// Resume `tid`.
    Resume { tid: i32 },
    /// Resume `tid`, and resume `child`, which has been waiting for this.
    ResumeBoth { tid: i32, child: i32 },
    /// Ask the kernel for the details of the signal that stopped `tid`, and
    /// go on as `Tracer::after_signal_info` says.
    QuerySignalInfo { tid: i32, signal: StopSignal },
    /// No tracee is left: stop waiting.
    Finish,
}

impl Action {
    /// How many times the thread `tid` is resumed when the action is
    /// carried out.
    pub open spec fn resumes(self, tid: i32) -> nat {
        match self {
            Action::Attach { tid: resumed } => if resumed == tid { 1 } else { 0 },
            Action::Resume { tid: resumed } => if resumed == tid { 1 } else { 0 },
            Action::ResumeBoth { tid: resumed, child } => {
                if resumed == tid && child == tid {
                    2
                } else if resumed == tid || child == tid {
                    1
                } else {
                    0
                }
            },
            _ => 0,
        }
    }
}

/// The tracing options that are installed on a tracee.
#[derive(Debug, Clone, Copy, PartialEq, Eq, Structural)]
pub struct TraceOptions {
    /// Stops at system calls are told apart from stops by signals.
    pub sysgood: bool,
    /// The tracees are killed when the tracer dies.
    pub exit_kill: bool,
    /// Threads and processes made with `clone` are traced too.
    pub trace_clone: bool,
    /// Processes made with `fork` are traced too.
    pub trace_fork: bool,
    /// Processes made with `vfork` are traced too.
    pub trace_vfork: bool,
    /// A replacement of the program is reported.
    pub trace_exec: bool,
}

/// Entry `i` of `log` records that process `id` ended with `status`.
pub open spec fn exits_with(log: Seq<EventView>, i: int, id: ProcessId, status: ExitStatus) -> bool {
    0 <= i < log.len() && log[i] == (EventView::ProcessExit { id, status })
}

/// `log` records that process `id` ended with `status`.
pub open spec fn ended_with(log: Seq<EventView>, id: ProcessId, status: ExitStatus) -> bool {
    exists|i: int| #[trigger] exits_with(log, i, id, status)
}

/// What a log records of the end of a process stays recorded when an entry
/// is appended.
pub proof fn lemma_push_keeps_end(
    log: Seq<EventView>,
    event: EventView,
    id: ProcessId,
    status: ExitStatus,
)
    requires
        added(log, id),
        ended_with(log, id, status),
    ensures
        added(log.push(event), id),
        ended_with(log.push(event), id, status),
{
    lemma_push_records(log, event, id);
    let i = choose|i: int| exits_with(log, i, id, status);
    assert(exits_with(log.push(event), i, id, status));
}

/// Tracer following processes and logging their execution to a `Database`.
pub struct Tracer {
    processes: Processes,
    database: Database,
    root: Option<ProcessId>,
    first_exit_code: Option<ExitStatus>,
}

/// What has to be spawned to trace a command, with the tracer that is to
/// follow it.
pub struct Launch {
    /// The tracer, to which the spawned process is to be handed with
    /// `Tracer::add_root`.
    pub tracer: Tracer,
    /// The program to run: the first element of the command.
    pub program: Vec<u8>,
    /// The arguments that the program sees, the first of which stands for
    /// its own name.
    pub arguments: Vec<Vec<u8>>,
}

impl Tracer {
    /// The threads that are tracked, each under the identifier that the
    /// kernel gave it.
    pub closed spec fn threads(&self) -> Map<i32, Thread> {
        self.processes.threads()
    }

    /// The events recorded so far, oldest first.
    pub closed spec fn log(&self) -> Seq<EventView> {
        self.database@
    }

    /// The number of processes recorded so far.
    pub closed spec fn process_count(&self) -> nat {
        self.database.process_count()
    }

    /// The place where the trace is to be kept.
    pub closed spec fn destination(&self) -> Seq<u8> {
        self.database.destination()
    }

    /// The identifier of the first process, once it is registered.
    pub closed spec fn root(&self) -> Option<ProcessId> {
        self.root
    }

    /// The exit status of the first process, once it has ended.
    pub closed spec fn root_status(&self) -> Option<ExitStatus> {
        self.first_exit_code
    }

    /// The registry and the database are each in order and agree on which
    /// processes are running; and the exit status of the first process is
    /// known exactly when the trace records its end, with that status.
    pub closed spec fn wf(&self) -> bool {
        &&& self.processes.wf()
        &&& self.database.wf()
        &&& self.processes.linked(&self.database)
        &&& match self.root {
            None => {
                &&& self.database@ == Seq::<EventView>::empty()
                &&& self.database.process_count() == 0
                &&& self.processes.threads() == Map::<i32, Thread>::empty()
                &&& self.first_exit_code is None
            },
            Some(id) => match self.first_exit_code {
                None => live(self.database@, id),
                Some(status) => added(self.database@, id) && ended_with(self.database@, id, status),
            },
        }
    }

    /// Creates a tracer that keeps its trace at `database`. No process is
    /// registered yet.
    pub fn new(database: &[u8]) -> (r: Result<Tracer, Error>)
        ensures
            r matches Ok(tracer) && tracer.wf() && tracer.root() is None && tracer.log()
                == Seq::<EventView>::empty() && tracer.threads() == Map::<i32, Thread>::empty()
                && tracer.destination() == database@,
    {
        let database = match Database::new(database) {
            Ok(database) => database,
            Err(e) => {
                return Err(e);
            },
        };
        let tracer = Tracer {
            processes: Processes::new(),
            database,
            root: None,
            first_exit_code: None,
        };
        Ok(tracer)
    }

    /// Begins the tracing of `command`: checks it, and says what has to be
    /// spawned.
    ///
    /// This fails if an element of the command holds a null byte, and then
    /// nothing is to be spawned.
    pub fn trace(self, command: &[Vec<u8>]) -> (r: Result<Launch, Error>)
        requires
            command.len() > 0,
        ensures
            r is Ok <==> forall|i: int| 0 <= i < command.len() ==> nul_free(#[trigger] command[i]@),
            match r {
                Ok(launch) => {
                    &&& launch.tracer == self
                    &&& launch.program@ == command[0]@
                    &&& argument_views(launch.arguments@) == argument_views(command@)
                },
                Err(e) => e is InvalidCommand,
            },
    {
        let r = self.trace_arg0(command, command[0].as_slice());
        proof {
            assert(argument_views(command@) =~= arguments_spec(command@, command[0]@));
        }
        r
    }

    /// Begins the tracing of `command` with `arg0` in place of its first
    /// argument: checks both, and says what has to be spawned.
    ///
    /// The program that is run is the first element of `command`, and what
    /// it sees as its own name is `arg0`. This fails if an element of the
    /// command, or `arg0`, holds a null byte, and then nothing is to be
    /// spawned.
    pub fn trace_arg0(self, command: &[Vec<u8>], arg0: &[u8]) -> (r: Result<Launch, Error>)
        requires
            command.len() > 0,
        ensures
            r is Ok <==> valid_command(command@, arg0@),
            match r {
                Ok(launch) => {
                    &&& launch.tracer == self
                    &&& launch.program@ == command[0]@
                    &&& argument_views(launch.arguments@) == arguments_spec(command@, arg0@)
                },
                Err(e) => e is InvalidCommand,
            },
    {
        match check_command(command, arg0) {
            Ok(()) => {},
            Err(e) => {
                return Err(e);
            },
        }
        let program = slice_to_vec(command[0].as_slice());
        let arguments = arguments(command, arg0);
        Ok(Launch { tracer: self, program, arguments })
    }

    /// Returns the registry of the tracked threads.
    pub fn processes(&self) -> (processes: &Processes)
        ensures
            processes.threads() == self.threads(),
            self.wf() ==> processes.wf(),
    {
        &self.processes
    }

    /// Returns the database that holds the trace.
    pub fn database(&self) -> (database: &Database)
        ensures
            database@ == self.log(),
            database.process_count() == self.process_count(),
            database.destination() == self.destination(),
            self.wf() ==> database.wf(),
    {
        &self.database
    }

    /// The tracing options that every new tracee gets: system call stops
    /// are marked, the tracees die with the tracer, and `clone`, `fork`,
    /// `vfork` and `exec` are followed.
    pub fn options() -> (options: TraceOptions)
        ensures
            options == (TraceOptions {
                sysgood: true,
                exit_kill: true,
                trace_clone: true,
                trace_fork: true,
                trace_vfork: true,
                trace_exec: true,
            }),
    {
        TraceOptions {
            sysgood: true,
            exit_kill: true,
            trace_clone: true,
            trace_fork: true,
            trace_vfork: true,
            trace_exec: true,
        }
    }

    /// Whether the first process is registered.
    pub open spec fn spec_is_started(&self) -> bool {
        self.root() is Some
    }

    /// Returns whether the first process is registered.
    #[verifier::when_used_as_spec(spec_is_started)]
    pub fn is_started(&self) -> (b: bool)
        ensures
            b == self.spec_is_started(),
    {
        self.root.is_some()
    }

    /// Whether the first process is registered and no thread is tracked any
    /// more.
    pub open spec fn spec_is_finished(&self) -> bool {
        self.root() is Some && self.threads().dom().is_empty()
    }

    /// Returns whether the first process is registered and no thread is
    /// tracked any more.
    #[verifier::when_used_as_spec(spec_is_finished)]
    pub fn is_finished(&self) -> (b: bool)
        ensures
            b == self.spec_is_finished(),
    {
        self.root.is_some() && self.processes.is_empty()
    }

    /// Registers the first process, which was just spawned as thread `tid`
    /// in the directory `working_dir`, and records that it uses this
    /// directory as its working directory.
    pub fn add_root(&mut self, tid: i32, working_dir: &[u8]) -> (r: Result<ProcessId, Error>)
        requires
            old(self).wf(),
            !old(self).spec_is_started(),
        ensures
            final(self).wf(),
            final(self).destination() == old(self).destination(),
            r == Ok::<ProcessId, Error>(ProcessId(0)),
            final(self).root() == Some(ProcessId(0)),
            final(self).root_status() is None,
            final(self).process_count() == 1,
            final(self).log() == seq![
                EventView::AddProcess {
                    id: ProcessId(0),
                    parent: None,
                    working_dir: working_dir@,
                    is_thread: false,
                },
                EventView::FileOpen {
                    id: ProcessId(0),
                    path: working_dir@,
                    mode: FileOp::of_bits(WDIR_BIT),
                    is_directory: true,
                },
            ],
            final(self).threads().dom() == set![tid],
            final(self).threads()[tid] matches Thread::Allocated(info) && info.identifier
                == ProcessId(0) && info.tid == tid && info.thread_group.working_dir@
                == working_dir@,
    {
        let group = Rc::new(ThreadGroup { working_dir: slice_to_vec(working_dir) });
        let identifier = match self.processes.add_first(tid, group, &mut self.database) {
            Ok(identifier) => identifier,
            Err(_) => unreached(),
        };
        assert(self.processes.identifiers().contains_key(identifier));
        match self.database.add_file_open(identifier, working_dir, FileOp::wdir(), true) {
            Ok(()) => {},
            Err(_) => unreached(),
        }
        self.root = Some(identifier);
        proof {
            assert(self.database.spec_is_live(identifier));
        }
        Ok(identifier)
    }

    /// Whether `other` tracks the same threads, holds the same trace and
    /// knows the same of the first process as `self`.
    pub open spec fn same_state(&self, other: &Tracer) -> bool {
        &&& other.threads() == self.threads()
        &&& other.log() == self.log()
        &&& other.process_count() == self.process_count()
        &&& other.root() == self.root()
        &&& other.root_status() == self.root_status()
    }

    /// Whether `event` can be handled: the first process is registered; a
    /// thread that ended is tracked; and of a thread that created another,
    /// the creation is recorded, while the new thread is not tracked, or
    /// only as announced by the kernel.
    pub open spec fn spec_accepts(&self, event: WaitEvent) -> bool {
        &&& self.root() is Some
        &&& match event {
            WaitEvent::Exited { tid, .. } => self.threads().contains_key(tid),
            WaitEvent::Signaled { tid, .. } => self.threads().contains_key(tid),
            WaitEvent::PtraceEvent { tid, event: TraceeEvent::Spawn { child, .. } } => {
                &&& self.threads().contains_key(tid)
                &&& self.threads()[tid].spec_identifier() is Some
                &&& self.threads().contains_key(child) ==> self.threads()[child] is Unknown
            },
            _ => true,
        }
    }

    /// Returns whether `event` can be handled.
    #[verifier::when_used_as_spec(spec_accepts)]
    pub fn accepts(&self, event: WaitEvent) -> (b: bool)
        ensures
            b == self.spec_accepts(event),
    {
        if self.root.is_none() {
            return false;
        }
        match event {
            WaitEvent::Exited { tid, .. } => self.processes.has_tid(tid),
            WaitEvent::Signaled { tid, .. } => self.processes.has_tid(tid),
            WaitEvent::PtraceEvent { tid, event: TraceeEvent::Spawn { child, .. } } => {
                if !self.processes.has_tid(tid) {
                    return false;
                }
                if self.processes.get_by_tid(tid).identifier().is_none() {
                    return false;
                }
                if self.processes.has_tid(child) {
                    match self.processes.get_by_tid(child) {
                        Thread::Unknown { .. } => true,
                        _ => false,
                    }
                } else {
                    true
                }
            },
            _ => true,
        }
    }

    /// The state `next` that follows `self` when the thread `tid` ends with
    /// `status`: the thread is no longer tracked; if its creation was
    /// recorded, so is its end; and if it is the first process, `status` is
    /// kept as the status of the first process.
    pub open spec fn exit_step(&self, next: &Tracer, tid: i32, status: ExitStatus) -> bool {
        &&& next.threads() == self.threads().remove(tid)
        &&& next.process_count() == self.process_count()
        &&& next.root() == self.root()
        &&& match self.threads()[tid].spec_identifier() {
            Some(id) => {
                &&& next.log() == self.log().push(EventView::ProcessExit { id, status })
                &&& next.root_status() == if self.root() == Some(id) {
                    Some(status)
                } else {
                    self.root_status()
                }
            },
            None => {
                &&& next.log() == self.log()
                &&& next.root_status() == self.root_status()
            },
        }
    }

    /// The state `next` that follows `self` when the thread `tid` is
    /// stopped by a signal: a thread that is seen for the first time is
    /// tracked as unknown, an allocated one becomes attached, and any other
    /// stays as it is. Nothing is recorded.
    pub open spec fn stop_step(&self, next: &Tracer, tid: i32) -> bool {
        &&& next.log() == self.log()
        &&& next.process_count() == self.process_count()
        &&& next.root() == self.root()
        &&& next.root_status() == self.root_status()
        &&& next.threads() == if !self.threads().contains_key(tid) {
            self.threads().insert(tid, Thread::Unknown { tid })
        } else if self.threads()[tid] is Allocated {
            self.threads().insert(tid, Thread::Attached(self.threads()[tid]->Allocated_0))
        } else {
            self.threads()
        }
    }

    /// The state `next` that follows `self` when the thread `tid` has
    /// created `child`: the creation is recorded under the next identifier,
    /// with the identifier of `tid` as its parent and the working directory
    /// of `tid`; `child` is tracked under that identifier, as attached if the
    /// kernel had announced it already, as allocated if not. A thread shares
    /// the group of its creator, a process gets one of its own.
    pub open spec fn spawn_step(&self, next: &Tracer, tid: i32, child: i32, is_thread: bool) -> bool {
        let parent = self.threads()[tid];
        let group = match parent {
            Thread::Unknown { .. } => arbitrary(),
            Thread::Allocated(info) => info.thread_group,
            Thread::Attached(info) => info.thread_group,
        };
        let id = ProcessId(self.process_count() as u32);
        &&& next.process_count() == self.process_count() + 1
        &&& next.root() == self.root()
        &&& next.root_status() == self.root_status()
        &&& next.log() == self.log().push(
            EventView::AddProcess {
                id,
                parent: parent.spec_identifier(),
                working_dir: group.working_dir@,
                is_thread,
            },
        )
        &&& next.threads().dom() == self.threads().dom().insert(child)
        &&& forall|other: i32|
            other != child && self.threads().contains_key(other) ==> #[trigger] next.threads()[other]
                == self.threads()[other]
        &&& match next.threads()[child] {
            Thread::Unknown { .. } => false,
            Thread::Allocated(info) => !self.threads().contains_key(child) && Self::spawned(
                info,
                id,
                child,
                group,
                is_thread,
            ),
            Thread::Attached(info) => self.threads().contains_key(child) && Self::spawned(
                info,
                id,
                child,
                group,
                is_thread,
            ),
        }
    }

    /// `info` is what is known of the new thread `child`, recorded as `id`,
    /// whose creator belongs to `group`.
    pub open spec fn spawned(
        info: ThreadInfo,
        id: ProcessId,
        child: i32,
        group: Rc<ThreadGroup>,
        is_thread: bool,
    ) -> bool {
        &&& info.identifier == id
        &&& info.tid == child
        &&& info.thread_group.working_dir@ == group.working_dir@
        &&& is_thread ==> info.thread_group == group
    }

    /// The state `next` that follows `self` after `event`.
    pub open spec fn step(&self, next: &Tracer, event: WaitEvent) -> bool {
        match event {
            WaitEvent::Exited { tid, code } => self.exit_step(next, tid, ExitStatus::Return(code)),
            WaitEvent::Signaled { tid, killer } => self.exit_step(
                next,
                tid,
                ExitStatus::Signal(killer),
            ),
            WaitEvent::Stopped { tid, .. } => self.stop_step(next, tid),
            WaitEvent::PtraceEvent { tid, event: TraceeEvent::Spawn { child, is_thread } } => {
                self.spawn_step(next, tid, child, is_thread)
            },
            _ => self.same_state(next),
        }
    }

    /// What has to be done after `event`, which was handled in the state
    /// `self`.
    ///
    /// After the end of a thread the tracer waits for the next event, or
    /// stops when no thread is left; the thread is gone and not resumed. A
    /// thread that stops for the first time gets the tracing options and
    /// stays stopped until its creator has reported it. An allocated thread
    /// gets the options and is resumed. Any other stopped thread is resumed
    /// if the signal is the trap signal; for another signal the kernel is
    /// asked first. A thread that reports an event or a system call is
    /// resumed, and with it a new thread that was waiting for its creator's
    /// report.
    pub open spec fn action_for(&self, event: WaitEvent) -> Action {
        match event {
            WaitEvent::Exited { tid, .. } | WaitEvent::Signaled { tid, .. } => {
                if self.threads().remove(tid).dom().is_empty() {
                    Action::Finish
                } else {
                    Action::Wait
                }
            },
            WaitEvent::Stopped { tid, signal } => {
                if !self.threads().contains_key(tid) {
                    Action::SetOptions { tid }
                } else if self.threads()[tid] is Allocated {
                    Action::Attach { tid }
                } else if signal == StopSignal::Trap {
                    Action::Resume { tid }
                } else {
                    Action::QuerySignalInfo { tid, signal }
                }
            },
            WaitEvent::PtraceEvent { tid, event: TraceeEvent::Spawn { child, .. } } => {
                if self.threads().contains_key(child) {
                    Action::ResumeBoth { tid, child }
                } else {
                    Action::Resume { tid }
                }
            },
            WaitEvent::PtraceEvent { tid, .. } => Action::Resume { tid },
            WaitEvent::PtraceSyscall { tid } => Action::Resume { tid },
            WaitEvent::Other => Action::Wait,
        }
    }

    /// Whether `event` cannot be recorded: it reports a new thread, and the
    /// database has no identifier left.
    pub open spec fn overflows(&self, event: WaitEvent) -> bool {
        match event {
            WaitEvent::PtraceEvent { event: TraceeEvent::Spawn { .. }, .. } => {
                self.process_count() == u32::MAX
            },
            _ => false,
        }
    }

    /// Handles the end of the thread `tid` with `status`.
    fn on_exit(&mut self, tid: i32, status: ExitStatus) -> (action: Action)
        requires
            old(self).wf(),
            old(self).root() is Some,
            old(self).threads().contains_key(tid),
        ensures
            final(self).wf(),
            final(self).destination() == old(self).destination(),
            old(self).exit_step(final(self), tid, status),
            action == if final(self).threads().dom().is_empty() {
                Action::Finish
            } else {
                Action::Wait
            },
    {
        let is_root = match (self.processes.get_by_tid(tid).identifier(), self.root) {
            (Some(id), Some(root)) => id.0 == root.0,
            _ => false,
        };
        let ghost before = self.database@;
        let ghost id = self.processes.threads()[tid].spec_identifier();
        match self.processes.exit(tid, status, &mut self.database) {
            Ok(()) => {},
            Err(_) => unreached(),
        }
        if is_root {
            self.first_exit_code = Some(status);
        }
        proof {
            let root = self.root->Some_0;
            if let Some(id) = id {
                let event = EventView::ProcessExit { id, status };
                if is_root {
                    lemma_push_records(before, event, root);
                    assert(exits_with(self.database@, before.len() as int, root, status));
                } else if let Some(old_status) = self.first_exit_code {
                    lemma_push_keeps_end(before, event, root, old_status);
                } else {
                    assert(self.processes.identifiers().contains_key(root));
                }
            }
        }
        if self.processes.is_empty() {
            Action::Finish
        } else {
            Action::Wait
        }
    }

    /// Handles a stop of the thread `tid` by `signal`.
    fn on_stop(&mut self, tid: i32, signal: StopSignal) -> (action: Action)
        requires
            old(self).wf(),
            old(self).root() is Some,
        ensures
            final(self).wf(),
            final(self).destination() == old(self).destination(),
            old(self).stop_step(final(self), tid),
            action == old(self).action_for(WaitEvent::Stopped { tid, signal }),
    {
        if !self.processes.has_tid(tid) {
            match self.processes.add_unknown(tid) {
                Ok(()) => {},
                Err(_) => unreached(),
            }
            // Don't resume, it will be attached and resumed when its
            // creator reports it
            return Action::SetOptions { tid };
        }
        if self.processes.promote_on_first_stop(tid) {
            return Action::Attach { tid };
        }
        match signal {
            StopSignal::Trap => Action::Resume { tid },
            _ => Action::QuerySignalInfo { tid, signal },
        }
    }

    /// Handles the report of the thread `tid` that it created `child`.
    fn on_spawn(&mut self, tid: i32, child: i32, is_thread: bool) -> (r: Result<Action, Error>)
        requires
            old(self).wf(),
            old(self).spec_accepts(
                WaitEvent::PtraceEvent { tid, event: TraceeEvent::Spawn { child, is_thread } },
            ),
        ensures
            final(self).wf(),
            final(self).destination() == old(self).destination(),
            r is Ok <==> old(self).process_count() < u32::MAX,
            match r {
                Ok(action) => {
                    &&& old(self).spawn_step(final(self), tid, child, is_thread)
                    &&& action == if old(self).threads().contains_key(child) {
                        Action::ResumeBoth { tid, child }
                    } else {
                        Action::Resume { tid }
                    }
                },
                Err(e) => e is Internal && old(self).same_state(final(self)),
            },
    {
        let (parent, group) = match self.processes.get_by_tid(tid) {
            Thread::Allocated(info) | Thread::Attached(info) => {
                let group = if is_thread {
                    info.thread_group.clone()
                } else {
                    let working_dir = info.thread_group.working_dir.clone();
                    Rc::new(ThreadGroup { working_dir })
                };
                (info.identifier, group)
            },
            Thread::Unknown { .. } => unreached(),
        };
        let waiting = self.processes.has_tid(child);
        let ghost before = self.database@;
        let ghost root = self.root->Some_0;
        match self.processes.add_child(child, group, parent, is_thread, &mut self.database) {
            Ok(_) => {},
            Err(e) => {
                return Err(e);
            },
        }
        proof {
            if let Some(old_status) = self.first_exit_code {
                lemma_push_keeps_end(before, self.database@.last(), root, old_status);
            } else {
                assert(self.processes.identifiers().contains_key(root));
            }
        }
        if waiting {
            self.processes.promote_on_first_stop(child);
            assert(self.threads().dom() =~= old(self).threads().dom().insert(child));
            Ok(Action::ResumeBoth { tid, child })
        } else {
            Ok(Action::Resume { tid })
        }
    }

    /// Handles one event that the kernel reported, and says what has to be
    /// done with the tracee next.
    ///
    /// This fails, and changes nothing, only if the event reports a new
    /// thread and the database has no identifier left for it.
    pub fn handle_event(&mut self, event: WaitEvent) -> (r: Result<Action, Error>)
        requires
            old(self).wf(),
            old(self).spec_accepts(event),
        ensures
            final(self).wf(),
            final(self).destination() == old(self).destination(),
            r is Ok <==> !old(self).overflows(event),
            match r {
                Ok(action) => {
                    &&& old(self).step(final(self), event)
                    &&& action == old(self).action_for(event)
                    &&& action is Finish ==> final(self).spec_is_finished()
                },
                Err(e) => e is Internal && old(self).same_state(final(self)),
            },
    {
        proof {
            self.database.lemma_wf();
        }
        match event {
            // A program exited
            WaitEvent::Exited { tid, code } => Ok(self.on_exit(tid, ExitStatus::Return(code))),
            WaitEvent::Signaled { tid, killer } => Ok(
                self.on_exit(tid, ExitStatus::Signal(killer)),
            ),
            WaitEvent::Stopped { tid, signal } => Ok(self.on_stop(tid, signal)),
            WaitEvent::PtraceEvent { tid, event: TraceeEvent::Spawn { child, is_thread } } => {
                self.on_spawn(tid, child, is_thread)
            },
            WaitEvent::PtraceEvent { tid, .. } => Ok(Action::Resume { tid }),
            WaitEvent::PtraceSyscall { tid } => Ok(Action::Resume { tid }),
            WaitEvent::Other => Ok(Action::Wait),
        }
    }

    /// A thread that stopped is resumed once, and no other thread is
    /// resumed but a new one that was waiting for this report of its creator.
    ///
    /// After a stop of any kind the action resumes the thread exactly once,
    /// with two exceptions: a thread that is seen for the first time stays
    /// stopped until its creator has reported it, and is resumed then; and
    /// where the kernel has to be asked about the signal, the thread is
    /// resumed after that, or left stopped.
    pub proof fn lemma_resumed_once(&self, event: WaitEvent, tid: i32)
        requires
            self.spec_accepts(event),
            match event {
                WaitEvent::Stopped { tid: stopped, .. } => stopped == tid,
                WaitEvent::PtraceEvent { tid: stopped, .. } => stopped == tid,
                WaitEvent::PtraceSyscall { tid: stopped } => stopped == tid,
                _ => false,
            },
        ensures
            self.action_for(event).resumes(tid) <= 1,
            self.action_for(event).resumes(tid) == 0 <==> self.action_for(event) is SetOptions
                || self.action_for(event) is QuerySignalInfo,
            forall|other: i32|
                other != tid && self.action_for(event).resumes(other) > 0 ==> {
                    &&& self.action_for(event).resumes(other) == 1
                    &&& self.threads().contains_key(other)
                    &&& self.threads()[other] is Unknown
                    &&& event matches WaitEvent::PtraceEvent {
                        event: TraceeEvent::Spawn { child, .. },
                        ..
                    } && child == other
                },
            forall|signal: StopSignal, has_info: bool|
                (#[trigger] Self::signal_action(tid, signal, has_info)).resumes(tid) <= 1,
    {
    }

    /// When no thread is left, the first process has ended, and so has
    /// every process that the trace holds.
    ///
    /// The first process is tracked until it ends, so the tracing cannot be
    /// over before its exit status is known.
    pub proof fn lemma_finished(&self)
        requires
            self.wf(),
            self.spec_is_finished(),
        ensures
            self.root_status() is Some,
            closed_log(self.log()),
    {
        self.lemma_wf();
        let log = self.log();
        assert forall|id: ProcessId| added(log, id) implies exited(log, id) by {
            assert(!live(log, id));
        }
    }

    /// What has to be done with the thread `tid`, stopped by `signal`, once
    /// the kernel was asked for the details of the signal.
    pub open spec fn signal_action(tid: i32, signal: StopSignal, has_info: bool) -> Action {
        if has_info || signal != StopSignal::Stop {
            Action::Resume { tid }
        } else {
            Action::Wait
        }
    }

    /// Says what has to be done with the thread `tid`, stopped by `signal`,
    /// once the kernel was asked for the details of the signal: the thread is
    /// resumed, unless the kernel had no details and the signal is the stop
    /// signal, in which case it stays stopped.
    pub fn after_signal_info(tid: i32, signal: StopSignal, has_info: bool) -> (action: Action)
        ensures
            action == Self::signal_action(tid, signal, has_info),
    {
        if has_info {
            Action::Resume { tid }
        } else {
            match signal {
                StopSignal::Stop => Action::Wait,
                _ => Action::Resume { tid },
            }
        }
    }

    /// Records that the thread `tid` accessed the file `path` in the ways
    /// of `mode`.
    ///
    /// This fails, and records nothing, if `tid` is not tracked, if its
    /// creation is not recorded, or if `mode` is empty.
    pub fn record_file_open(
        &mut self,
        tid: i32,
        path: &[u8],
        mode: FileOp,
        is_directory: bool,
    ) -> (r: Result<(), Error>)
        requires
            old(self).wf(),
        ensures
            final(self).wf(),
            final(self).destination() == old(self).destination(),
            final(self).threads() == old(self).threads(),
            final(self).process_count() == old(self).process_count(),
            final(self).root() == old(self).root(),
            final(self).root_status() == old(self).root_status(),
            r is Ok <==> old(self).threads().contains_key(tid) && old(
                self,
            ).threads()[tid].spec_identifier() is Some && !mode.is_empty(),
            match r {
                Ok(()) => final(self).log() == old(self).log().push(
                    EventView::FileOpen {
                        id: old(self).threads()[tid].spec_identifier()->Some_0,
                        path: path@,
                        mode,
                        is_directory,
                    },
                ),
                Err(e) => e is Internal && final(self).log() == old(self).log(),
            },
    {
        if !self.processes.has_tid(tid) {
            return Err(Error::Internal("file access by a thread that is not traced".to_string()));
        }
        let id = match self.processes.get_by_tid(tid).identifier() {
            Some(id) => id,
            None => {
                return Err(
                    Error::Internal("file access by a thread that is not recorded".to_string()),
                );
            },
        };
        let ghost before = self.database;
        match self.database.add_file_open(id, path, mode, is_directory) {
            Ok(()) => {},
            Err(e) => {
                return Err(e);
            },
        }
        proof {
            if let Some(root) = self.root {
                let event = EventView::FileOpen { id, path: path@, mode, is_directory };
                if let Some(status) = self.first_exit_code {
                    lemma_push_keeps_end(before@, event, root, status);
                } else {
                    assert(self.database.spec_is_live(root) == before.spec_is_live(root));
                }
            }
        }
        Ok(())
    }

    /// What a well-formed tracer says of its trace: the events are in
    /// order; the status of the first process is known exactly when the
    /// trace records its end, and then the trace records it with that status;
    /// and every process that is recorded and has not ended is tracked.
    pub proof fn lemma_wf(&self)
        requires
            self.wf(),
        ensures
            valid_log(self.log()),
            self.root() is None ==> self.root_status() is None && self.log().len() == 0
                && self.threads().dom().is_empty(),
            self.root() matches Some(root) ==> {
                &&& added(self.log(), root)
                &&& self.root_status() is None <==> live(self.log(), root)
                &&& forall|status: ExitStatus|
                    self.root_status() == Some(status) <==> ended_with(self.log(), root, status)
            },
            forall|id: ProcessId|
                live(self.log(), id) ==> exists|tid: i32| #[trigger]
                    self.threads().contains_key(tid) && self.threads()[tid].spec_identifier()
                        == Some(id),
    {
        self.database.lemma_wf();
        let log = self.database@;
        if let Some(root) = self.root {
            assert forall|status: ExitStatus| ended_with(log, root, status) implies self.root_status()
                == Some(status) by {
                let i = choose|i: int| exits_with(log, i, root, status);
                assert(exits(log, i, root));
                assert(exited(log, root));
                let known = self.first_exit_code->Some_0;
                let j = choose|j: int| exits_with(log, j, root, known);
                assert(exits(log, j, root));
                lemma_exit_once(log, i, j, root);
            }
            if let Some(status) = self.first_exit_code {
                let j = choose|j: int| exits_with(log, j, root, status);
                assert(exits(log, j, root));
            }
        }
        assert forall|id: ProcessId| live(log, id) implies exists|tid: i32| #[trigger]
            self.threads().contains_key(tid) && self.threads()[tid].spec_identifier() == Some(
                id,
            ) by {
            assert(self.processes.identifiers().contains_key(id));
            let tid = self.processes.identifiers()[id];
            assert(self.threads().contains_key(tid));
        }
    }

    /// Ends the tracing once no thread is left: commits the trace and
    /// returns it with the exit status of the first process.
    ///
    /// The status is the one, and the only one, that the trace records for
    /// the first process, and the trace holds every event that was recorded,
    /// with the end of every process that it holds.
    pub fn finish(self) -> (r: Result<(ExitStatus, Trace), Error>)
        requires
            self.wf(),
            self.spec_is_finished(),
        ensures
            r matches Ok((status, trace)) && {
                &&& self.root_status() == Some(status)
                &&& trace@ == self.log()
                &&& trace.destination() == self.destination()
                &&& valid_log(trace@)
                &&& closed_log(trace@)
                &&& ended_with(trace@, self.root()->Some_0, status)
                &&& forall|other: ExitStatus|
                    ended_with(trace@, self.root()->Some_0, other) ==> other == status
            },
    {
        proof {
            self.lemma_wf();
            self.lemma_finished();
        }
        let status = match self.first_exit_code {
            Some(status) => status,
            None => unreached(),
        };
        match self.database.commit() {
            Ok(trace) => Ok((status, trace)),
            Err(e) => Err(e),
        }
    }
}

/// Run a command and trace it: checks the command, and says what has to be
/// spawned, with a new tracer that keeps its trace at `database`.
///
/// This fails if an element of the command holds a null byte, and then
/// nothing is to be spawned.
pub fn trace(command: &[Vec<u8>], database: &[u8]) -> (r: Result<Launch, Error>)
    requires
        command.len() > 0,
    ensures
        r is Ok <==> forall|i: int| 0 <= i < command.len() ==> nul_free(#[trigger] command[i]@),
        match r {
            Ok(launch) => {
                &&& launch.tracer.wf()
                &&& !launch.tracer.spec_is_started()
                &&& launch.tracer.destination() == database@
                &&& launch.program@ == command[0]@
                &&& argument_views(launch.arguments@) == argument_views(command@)
            },
            Err(e) => e is InvalidCommand,
        },
{
    match Tracer::new(database) {
        Ok(tracer) => tracer.trace(command),
        Err(e) => Err(e),
    }
}

/// Run a command and trace it, replacing `argv[0]`: checks both, and says
/// what has to be spawned, with a new tracer that keeps its trace at
/// `database`.
///
/// This fails if an element of the command, or `arg0`, holds a null byte,
/// and then nothing is to be spawned.
pub fn trace_arg0(command: &[Vec<u8>], arg0: &[u8], database: &[u8]) -> (r: Result<Launch, Error>)
    requires
        command.len() > 0,
    ensures
        r is Ok <==> valid_command(command@, arg0@),
        match r {
            Ok(launch) => {
                &&& launch.tracer.wf()
                &&& !launch.tracer.spec_is_started()
                &&& launch.tracer.destination() == database@
                &&& launch.program@ == command[0]@
                &&& argument_views(launch.arguments@) == arguments_spec(command@, arg0@)
            },
            Err(e) => e is InvalidCommand,
        },
{
    match Tracer::new(database) {
        Ok(tracer) => tracer.trace_arg0(command, arg0),
        Err(e) => Err(e),
    }
}

} // verus!
