//! The threads and processes that are being traced.

use std::collections::hash_map::Entry;
use std::collections::HashMap;
use std::rc::Rc;
use vstd::pervasive::unreached;
use vstd::prelude::*;

use crate::database::{Database, ProcessId};
use crate::error::Error;
use crate::events::{added, EventView};
use crate::status::ExitStatus;

verus! {

broadcast use vstd::std_specs::hash::group_hash_axioms;

/// A group of threads, i.e. a process.
///
/// All the threads in a process share some attributes, such as the
/// working directory.
#[derive(Debug, PartialEq, Eq)]
pub struct ThreadGroup {
    /// The working directory at the time the group was first seen.
    pub working_dir: Vec<u8>,
}

/// What is known of a thread once its creation is recorded.
#[derive(Debug, PartialEq, Eq)]
pub struct ThreadInfo {
    /// The identifier under which the database knows the thread.
    pub identifier: ProcessId,
    /// The identifier under which the kernel knows the thread.
    pub tid: i32,
    /// The process that the thread belongs to.
    pub thread_group: Rc<ThreadGroup>,
}

/// A thread that we are tracking.
#[derive(Debug, PartialEq, Eq)]
pub enum Thread {
    /// The kernel has announced the thread, its creator has not yet.
    Unknown { tid: i32 },
    /// The thread is recorded, and has not stopped for the first time yet.
    Allocated(ThreadInfo),
    /// The thread is recorded and was resumed.
    Attached(ThreadInfo),
}

impl ThreadInfo {
    /// Records the end of this thread in `database`.
    pub fn exit(self, exitstatus: ExitStatus, database: &mut Database) -> (r: Result<(), Error>)
        requires
            old(database).wf(),
        ensures
            final(database).wf(),
            final(database).destination() == old(database).destination(),
            final(database).process_count() == old(database).process_count(),
            r is Ok <==> old(database).spec_is_live(self.identifier),
            match r {
                Ok(()) => {
                    &&& final(database)@ == old(database)@.push(
                        EventView::ProcessExit { id: self.identifier, status: exitstatus },
                    )
                    &&& forall|other: ProcessId|
                        #![trigger final(database).spec_is_live(other)]
                        final(database).spec_is_live(other) == (other != self.identifier && old(
                            database,
                        ).spec_is_live(other))
                },
                Err(e) => e is Internal && final(database)@ == old(database)@,
            },
    {
        database.process_exit(self.identifier, exitstatus)
    }
}

impl Thread {
    /// The identifier under which the kernel knows the thread.
    pub open spec fn spec_tid(&self) -> i32 {
        match self {
            Thread::Unknown { tid } => *tid,
            Thread::Allocated(info) => info.tid,
            Thread::Attached(info) => info.tid,
        }
    }

    /// Returns the identifier under which the kernel knows the thread.
    #[verifier::when_used_as_spec(spec_tid)]
    pub fn tid(&self) -> (tid: i32)
        ensures
            tid == self.spec_tid(),
    {
        match self {
            Thread::Unknown { tid } => *tid,
            Thread::Allocated(info) => info.tid,
            Thread::Attached(info) => info.tid,
        }
    }

    /// The identifier under which the database knows the thread, if its
    /// creation is recorded.
    pub open spec fn spec_identifier(&self) -> Option<ProcessId> {
        match self {
            Thread::Unknown { .. } => None,
            Thread::Allocated(info) => Some(info.identifier),
            Thread::Attached(info) => Some(info.identifier),
        }
    }

    /// Returns the identifier under which the database knows the thread, if
    /// its creation is recorded.
    #[verifier::when_used_as_spec(spec_identifier)]
    pub fn identifier(&self) -> (id: Option<ProcessId>)
        ensures
            id == self.spec_identifier(),
    {
        match self {
            Thread::Unknown { .. } => None,
            Thread::Allocated(info) => Some(info.identifier),
            Thread::Attached(info) => Some(info.identifier),
        }
    }
}

/// Structure holding all the running threads and processes.
pub struct Processes {
    pid2process: HashMap<i32, Thread>,
    identifier2pid: HashMap<u32, i32>,
}

impl Processes {
    /// The threads that are tracked, each under the identifier that the
    /// kernel gave it.
    pub closed spec fn threads(&self) -> Map<i32, Thread> {
        self.pid2process@
    }

    /// The kernel's identifier of each thread whose creation is recorded,
    /// under the identifier that the database gave it.
    pub closed spec fn identifiers(&self) -> Map<ProcessId, i32> {
        Map::new(
            |id: ProcessId| self.identifier2pid@.contains_key(id.0),
            |id: ProcessId| self.identifier2pid@[id.0],
        )
    }

    /// The two maps agree: a recorded thread is found under its database
    /// identifier, and what is found there is a recorded thread with that
    /// identifier. Every thread is kept under its own kernel identifier.
    pub open spec fn wf(&self) -> bool {
        &&& forall|tid: i32| #[trigger]
            self.threads().contains_key(tid) ==> {
                &&& self.threads()[tid].spec_tid() == tid
                &&& self.threads()[tid].spec_identifier() matches Some(id)
                    ==> self.identifiers().contains_key(id) && self.identifiers()[id] == tid
            }
        &&& forall|id: ProcessId| #[trigger]
            self.identifiers().contains_key(id) ==> {
                &&& self.threads().contains_key(self.identifiers()[id])
                &&& self.threads()[self.identifiers()[id]].spec_identifier() == Some(id)
            }
    }

    /// The recorded threads are the processes that `database` holds as
    /// created and not ended.
    pub open spec fn linked(&self, database: &Database) -> bool {
        forall|id: ProcessId| #[trigger]
            self.identifiers().contains_key(id) <==> database.spec_is_live(id)
    }

    /// Returns a registry without threads.
    pub fn new() -> (processes: Processes)
        ensures
            processes.wf(),
            processes.threads() == Map::<i32, Thread>::empty(),
            processes.identifiers() == Map::<ProcessId, i32>::empty(),
    {
        let processes = Processes { pid2process: HashMap::new(), identifier2pid: HashMap::new() };
        processes
    }

    /// Add the first process, which has no parent.
    ///
    /// Its creation is recorded in `database`, and the thread is kept as
    /// allocated. Nothing changes if the database has no identifier left.
    pub fn add_first(
        &mut self,
        tid: i32,
        thread_group: Rc<ThreadGroup>,
        database: &mut Database,
    ) -> (r: Result<ProcessId, Error>)
        requires
            old(self).wf(),
            old(database).wf(),
            old(self).linked(old(database)),
            !old(self).spec_has_tid(tid),
        ensures
            final(self).wf(),
            final(database).wf(),
            final(self).linked(final(database)),
            final(database).destination() == old(database).destination(),
            r is Ok <==> old(database).process_count() < u32::MAX,
            match r {
                Ok(id) => {
                    &&& id.0 == old(database).process_count()
                    &&& final(database).process_count() == old(database).process_count() + 1
                    &&& final(database)@ == old(database)@.push(
                        EventView::AddProcess {
                            id,
                            parent: None,
                            working_dir: thread_group.working_dir@,
                            is_thread: false,
                        },
                    )
                    &&& final(self).threads() == old(self).threads().insert(
                        tid,
                        Thread::Allocated(ThreadInfo { identifier: id, tid, thread_group }),
                    )
                    &&& final(self).identifiers() == old(self).identifiers().insert(id, tid)
                },
                Err(e) => {
                    &&& e is Internal
                    &&& final(self).threads() == old(self).threads()
                    &&& final(self).identifiers() == old(self).identifiers()
                    &&& final(database)@ == old(database)@
                    &&& final(database).process_count() == old(database).process_count()
                },
            },
    {
        let identifier = match database.add_process(
            None,
            thread_group.working_dir.as_slice(),
            false,
        ) {
            Ok(identifier) => identifier,
            Err(e) => {
                return Err(e);
            },
        };
        self.register(tid, identifier, thread_group);
        Ok(identifier)
    }

    /// Add a process whose creator has just returned from creating it.
    ///
    /// Its creation is recorded in `database` with `parent` as its creator.
    /// The thread is kept as allocated, whether the kernel had announced it
    /// before or not. Nothing changes if `parent` is not recorded in the
    /// database, or if the database has no identifier left.
    pub fn add_child(
        &mut self,
        tid: i32,
        thread_group: Rc<ThreadGroup>,
        parent: ProcessId,
        is_thread: bool,
        database: &mut Database,
    ) -> (r: Result<ProcessId, Error>)
        requires
            old(self).wf(),
            old(database).wf(),
            old(self).linked(old(database)),
            old(self).spec_has_tid(tid) ==> old(self).threads()[tid] is Unknown,
        ensures
            final(self).wf(),
            final(database).wf(),
            final(self).linked(final(database)),
            final(database).destination() == old(database).destination(),
            r is Ok <==> old(database).process_count() < u32::MAX && added(
                old(database)@,
                parent,
            ),
            match r {
                Ok(id) => {
                    &&& id.0 == old(database).process_count()
                    &&& final(database).process_count() == old(database).process_count() + 1
                    &&& final(database)@ == old(database)@.push(
                        EventView::AddProcess {
                            id,
                            parent: Some(parent),
                            working_dir: thread_group.working_dir@,
                            is_thread,
                        },
                    )
                    &&& final(self).threads() == old(self).threads().insert(
                        tid,
                        Thread::Allocated(ThreadInfo { identifier: id, tid, thread_group }),
                    )
                    &&& final(self).identifiers() == old(self).identifiers().insert(id, tid)
                },
                Err(e) => {
                    &&& e is Internal
                    &&& final(self).threads() == old(self).threads()
                    &&& final(self).identifiers() == old(self).identifiers()
                    &&& final(database)@ == old(database)@
                    &&& final(database).process_count() == old(database).process_count()
                },
            },
    {
        let identifier = match database.add_process(
            Some(parent),
            thread_group.working_dir.as_slice(),
            is_thread,
        ) {
            Ok(identifier) => identifier,
            Err(e) => {
                return Err(e);
            },
        };
        self.register(tid, identifier, thread_group);
        Ok(identifier)
    }

    /// Keeps the thread `tid` as allocated under the fresh identifier
    /// `identifier`.
    fn register(&mut self, tid: i32, identifier: ProcessId, thread_group: Rc<ThreadGroup>)
        requires
            old(self).wf(),
            !old(self).identifiers().contains_key(identifier),
            old(self).spec_has_tid(tid) ==> old(self).threads()[tid] is Unknown,
        ensures
            final(self).wf(),
            final(self).threads() == old(self).threads().insert(
                tid,
                Thread::Allocated(ThreadInfo { identifier, tid, thread_group }),
            ),
            final(self).identifiers() == old(self).identifiers().insert(identifier, tid),
    {
        self.pid2process.insert(tid, Thread::Allocated(ThreadInfo { identifier, tid, thread_group }));
        self.identifier2pid.insert(identifier.0, tid);
        assert(self.identifiers() =~= old(self).identifiers().insert(identifier, tid));
    }

    /// Add a new process, currently unknown.
    ///
    /// This is required because we can see processes appear before we see
    /// their creator returning from fork().
    pub fn add_unknown(&mut self, tid: i32) -> (r: Result<(), Error>)
        requires
            old(self).wf(),
            !old(self).spec_has_tid(tid),
        ensures
            final(self).wf(),
            r is Ok,
            final(self).threads() == old(self).threads().insert(tid, Thread::Unknown { tid }),
            final(self).identifiers() == old(self).identifiers(),
    {
        self.pid2process.insert(tid, Thread::Unknown { tid });
        Ok(())
    }

    /// Marks an allocated thread as attached, at its first stop.
    ///
    /// Returns whether the thread was allocated, that is, whether this was
    /// its first stop. A thread in another state is left as it is.
    pub fn promote_on_first_stop(&mut self, tid: i32) -> (first: bool)
        requires
            old(self).wf(),
            old(self).spec_has_tid(tid),
        ensures
            final(self).wf(),
            final(self).identifiers() == old(self).identifiers(),
            first == (old(self).threads()[tid] is Allocated),
            first ==> final(self).threads() == old(self).threads().insert(
                tid,
                Thread::Attached(old(self).threads()[tid]->Allocated_0),
            ),
            !first ==> final(self).threads() == old(self).threads(),
    {
        let allocated = match self.pid2process.get(&tid) {
            Some(Thread::Allocated(_)) => true,
            _ => false,
        };
        if allocated {
            if let Some(Thread::Allocated(info)) = self.pid2process.remove(&tid) {
                self.pid2process.insert(tid, Thread::Attached(info));
            }
        }
        allocated
    }

    /// Forgets the thread `tid`, which has ended.
    ///
    /// If its creation was recorded, its end is recorded in `database` with
    /// `exitstatus`. A thread that was only announced by the kernel leaves
    /// no record.
    pub fn exit(&mut self, tid: i32, exitstatus: ExitStatus, database: &mut Database) -> (r: Result<
        (),
        Error,
    >)
        requires
            old(self).wf(),
            old(database).wf(),
            old(self).linked(old(database)),
            old(self).spec_has_tid(tid),
        ensures
            final(self).wf(),
            final(database).wf(),
            final(self).linked(final(database)),
            final(database).destination() == old(database).destination(),
            final(database).process_count() == old(database).process_count(),
            r is Ok,
            final(self).threads() == old(self).threads().remove(tid),
            match old(self).threads()[tid].spec_identifier() {
                Some(id) => {
                    &&& final(self).identifiers() == old(self).identifiers().remove(id)
                    &&& final(database)@ == old(database)@.push(
                        EventView::ProcessExit { id, status: exitstatus },
                    )
                },
                None => {
                    &&& final(self).identifiers() == old(self).identifiers()
                    &&& final(database)@ == old(database)@
                },
            },
    {
        let thread = match self.pid2process.remove(&tid) {
            Some(thread) => thread,
            None => unreached(),
        };
        match thread {
            Thread::Allocated(info) | Thread::Attached(info) => {
                let ghost id = info.identifier;
                self.identifier2pid.remove(&info.identifier.0);
                assert(self.identifiers() =~= old(self).identifiers().remove(id));
                info.exit(exitstatus, database)
            },
            Thread::Unknown { .. } => Ok(()),
        }
    }

    /// Whether no thread is tracked.
    pub open spec fn spec_is_empty(&self) -> bool {
        self.threads().dom().is_empty()
    }

    /// Returns whether no thread is tracked.
    #[verifier::when_used_as_spec(spec_is_empty)]
    pub fn is_empty(&self) -> (b: bool)
        ensures
            b == self.spec_is_empty(),
    {
        self.pid2process.is_empty()
    }

    /// Returns the number of threads that are tracked.
    pub fn len(&self) -> (n: usize)
        ensures
            n == self.threads().dom().len(),
    {
        self.pid2process.len()
    }

    /// Whether a thread is tracked under the kernel identifier `tid`.
    pub open spec fn spec_has_tid(&self, tid: i32) -> bool {
        self.threads().contains_key(tid)
    }

    /// Returns whether a thread is tracked under the kernel identifier
    /// `tid`.
    #[verifier::when_used_as_spec(spec_has_tid)]
    pub fn has_tid(&self, tid: i32) -> (b: bool)
        ensures
            b == self.spec_has_tid(tid),
    {
        self.pid2process.contains_key(&tid)
    }

    /// Returns the thread that is tracked under the kernel identifier
    /// `tid`.
    pub fn get_by_tid(&self, tid: i32) -> (thread: &Thread)
        requires
            self.spec_has_tid(tid),
        ensures
            *thread == self.threads()[tid],
    {
        match self.pid2process.get(&tid) {
            Some(thread) => thread,
            None => unreached(),
        }
    }

    /// Returns the thread that is recorded under the database identifier
    /// `id`.
    pub fn get_by_id(&self, id: ProcessId) -> (thread: &Thread)
        requires
            self.wf(),
            self.identifiers().contains_key(id),
        ensures
            *thread == self.threads()[self.identifiers()[id]],
            thread.spec_identifier() == Some(id),
    {
        let tid = match self.identifier2pid.get(&id.0) {
            Some(tid) => *tid,
            None => unreached(),
        };
        self.get_by_tid(tid)
    }

    /// Returns the thread that is tracked under the kernel identifier
    /// `tid`, to be changed in place.
    ///
    /// The registry then holds under `tid` what the caller leaves there;
    /// it is for the caller to leave it well-formed.
    pub fn get_by_tid_mut(&mut self, tid: i32) -> (thread: &mut Thread)
        requires
            old(self).spec_has_tid(tid),
        ensures
            *thread == old(self).threads()[tid],
            final(self).threads() == old(self).threads().insert(tid, *final(thread)),
            final(self).identifiers() == old(self).identifiers(),
    {
        match self.pid2process.entry(tid) {
            Entry::Occupied(entry) => entry.into_mut(),
            Entry::Vacant(_) => unreached(),
        }
    }

    /// Returns the thread that is recorded under the database identifier
    /// `id`, to be changed in place.
    ///
    /// The registry then holds in its place what the caller leaves there;
    /// it is for the caller to leave it well-formed.
    pub fn get_by_id_mut(&mut self, id: ProcessId) -> (thread: &mut Thread)
        requires
            old(self).wf(),
            old(self).identifiers().contains_key(id),
        ensures
            *thread == old(self).threads()[old(self).identifiers()[id]],
            thread.spec_identifier() == Some(id),
            final(self).threads() == old(self).threads().insert(
                old(self).identifiers()[id],
                *final(thread),
            ),
            final(self).identifiers() == old(self).identifiers(),
    {
        let tid = match self.identifier2pid.get(&id.0) {
            Some(tid) => *tid,
            None => unreached(),
        };
        self.get_by_tid_mut(tid)
    }
}

} // verus!
