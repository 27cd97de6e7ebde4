//! This module is responsible for recording information about the traced
//! program: which processes it created, which files they accessed, and how
//! they ended.

use vstd::prelude::*;
use vstd::slice::slice_to_vec;

use crate::error::Error;
use crate::events::{
    added, adds, exited, exits, lemma_exit_after_add, lemma_push_keeps_prefix,
    lemma_push_keeps_valid, lemma_push_records, live, valid_log, views, Event, EventView,
};
use crate::fileop::FileOp;
use crate::status::ExitStatus;

verus! {

/// The ID assigned to a process in the database.
#[derive(Debug, Clone, Copy, Hash, PartialEq, Eq, Structural)]
pub struct ProcessId(pub u32);

/// The database, where we record events about the traced program.
pub struct Database {
    destination: Vec<u8>,
    next_process: u32,
    events: Vec<Event>,
    running: Vec<bool>,
}

/// A trace that was committed: the events of one run, in order, and the
/// place where they are to be kept.
#[derive(Debug)]
pub struct Trace {
    destination: Vec<u8>,
    events: Vec<Event>,
}

impl View for Database {
    type V = Seq<EventView>;

    /// The events recorded so far, oldest first.
    closed spec fn view(&self) -> Seq<EventView> {
        views(self.events@)
    }
}

impl View for Trace {
    type V = Seq<EventView>;

    /// The events of the trace, oldest first.
    closed spec fn view(&self) -> Seq<EventView> {
        views(self.events@)
    }
}

impl Database {
    /// The number of processes recorded so far, which is the identifier that
    /// the next one gets.
    pub closed spec fn process_count(&self) -> nat {
        self.next_process as nat
    }

    /// The place where the trace is to be kept.
    pub closed spec fn destination(&self) -> Seq<u8> {
        self.destination@
    }

    /// The recorded events are in order, and the identifiers handed out are
    /// the numbers below `process_count()`, in rising order.
    pub closed spec fn wf(&self) -> bool {
        &&& valid_log(self@)
        &&& forall|id: ProcessId| added(self@, id) <==> id.0 < self.next_process
        &&& self.running@.len() == self.next_process
        &&& forall|k: int|
            0 <= k < self.next_process ==> (#[trigger] self.running@[k] <==> !exited(
                self@,
                ProcessId(k as u32),
            ))
    }

    /// What a well-formed database says of its events.
    pub proof fn lemma_wf(&self)
        requires
            self.wf(),
        ensures
            valid_log(self@),
            self.process_count() <= u32::MAX,
            forall|id: ProcessId| #[trigger] added(self@, id) <==> id.0 < self.process_count(),
    {
    }

    /// Opens an empty database that is to be kept at `path`.
    pub fn new(path: &[u8]) -> (db: Result<Database, Error>)
        ensures
            db matches Ok(d) && d.wf() && d@ == Seq::<EventView>::empty() && d.process_count() == 0
                && d.destination() == path@,
    {
        let d = Database {
            destination: slice_to_vec(path),
            next_process: 0,
            events: Vec::new(),
            running: Vec::new(),
        };
        Ok(d)
    }

    /// Returns the place where the trace is to be kept.
    pub fn path(&self) -> (path: &[u8])
        ensures
            path@ == self.destination(),
    {
        self.destination.as_slice()
    }

    /// Returns the events recorded so far, oldest first.
    pub fn events(&self) -> (events: &Vec<Event>)
        ensures
            views(events@) == self@,
    {
        &self.events
    }

    /// Whether `id` was handed out by this database and its process has not
    /// ended.
    pub open spec fn spec_is_live(&self, id: ProcessId) -> bool {
        live(self@, id)
    }

    /// Returns whether `id` was handed out by this database and its process
    /// has not ended.
    #[verifier::when_used_as_spec(spec_is_live)]
    pub fn is_live(&self, id: ProcessId) -> (b: bool)
        requires
            self.wf(),
        ensures
            b == self.spec_is_live(id),
    {
        if id.0 < self.next_process {
            let k: usize = id.0 as usize;
            self.running[k]
        } else {
            false
        }
    }

    /// Record the creation of a thread or process.
    ///
    /// The new process gets the next identifier. This fails, and records
    /// nothing, if `parent` is given and was not handed out by this database,
    /// or if all identifiers are used up.
    pub fn add_process(
        &mut self,
        parent: Option<ProcessId>,
        working_dir: &[u8],
        is_thread: bool,
    ) -> (r: Result<ProcessId, Error>)
        requires
            old(self).wf(),
        ensures
            final(self).wf(),
            final(self).destination() == old(self).destination(),
            r is Ok <==> old(self).process_count() < u32::MAX && (parent matches Some(p) ==> added(
                old(self)@,
                p,
            )),
            match r {
                Ok(id) => {
                    &&& id.0 == old(self).process_count()
                    &&& final(self).process_count() == old(self).process_count() + 1
                    &&& final(self)@ == old(self)@.push(
                        EventView::AddProcess { id, parent, working_dir: working_dir@, is_thread },
                    )
                    &&& !added(old(self)@, id)
                    &&& forall|other: ProcessId|
                        #![trigger final(self).spec_is_live(other)]
                        final(self).spec_is_live(other) == (other == id || old(self).spec_is_live(
                            other,
                        ))
                },
                Err(e) => {
                    &&& e is Internal
                    &&& final(self)@ == old(self)@
                    &&& final(self).process_count() == old(self).process_count()
                },
            },
    {
        if self.next_process == u32::MAX {
            return Err(Error::Internal("too many processes for one trace".to_string()));
        }
        if let Some(p) = parent {
            if p.0 >= self.next_process {
                return Err(Error::Internal("parent process is not in the trace".to_string()));
            }
        }
        let id = ProcessId(self.next_process);
        let ghost before = self@;
        let ghost event = EventView::AddProcess {
            id,
            parent,
            working_dir: working_dir@,
            is_thread,
        };
        self.events.push(
            Event::AddProcess { id, parent, working_dir: slice_to_vec(working_dir), is_thread },
        );
        self.running.push(true);
        self.next_process = self.next_process + 1;
        proof {
            assert(self@ =~= before.push(event));
            let last = before.len() as int;
            assert forall|j: int, other: ProcessId| j < last && #[trigger] adds(
                self@,
                j,
                other,
            ) implies other.0 < id.0 by {
                assert(adds(before, j, other));
                assert(added(before, other));
            }
            if let Some(p) = parent {
                assert(added(before, p));
                lemma_push_keeps_prefix(before, event, last, p);
            }
            lemma_push_keeps_valid(before, event);
            assert forall|other: ProcessId|
                added(self@, other) <==> other.0 < self.next_process by {
                lemma_push_records(before, event, other);
            }
            assert forall|k: int| 0 <= k < self.next_process implies (#[trigger] self.running@[k]
                <==> !exited(self@, ProcessId(k as u32))) by {
                lemma_push_records(before, event, ProcessId(k as u32));
                if k == id.0 && exited(before, id) {
                    let j = choose|j: int| j < before.len() && exits(before, j, id);
                    let a = lemma_exit_after_add(before, j, id);
                    assert(added(before, id));
                }
            }
            assert forall|other: ProcessId|
                #![trigger self.spec_is_live(other)]
                self.spec_is_live(other) == (other == id || live(before, other)) by {
                lemma_push_records(before, event, other);
                lemma_push_records(before, event, id);
                if other == id {
                    assert(self.running@[id.0 as int]);
                }
            }
        }
        Ok(id)
    }

    /// Record a file access.
    ///
    /// This fails, and records nothing, if `id` is not the identifier of a
    /// process that is recorded and has not ended, or if `mode` is empty.
    pub fn add_file_open(
        &mut self,
        id: ProcessId,
        path: &[u8],
        mode: FileOp,
        is_directory: bool,
    ) -> (r: Result<(), Error>)
        requires
            old(self).wf(),
        ensures
            final(self).wf(),
            final(self).destination() == old(self).destination(),
            final(self).process_count() == old(self).process_count(),
            r is Ok <==> old(self).spec_is_live(id) && !mode.is_empty(),
            match r {
                Ok(()) => {
                    &&& final(self)@ == old(self)@.push(
                        EventView::FileOpen { id, path: path@, mode, is_directory },
                    )
                    &&& forall|other: ProcessId|
                        #![trigger final(self).spec_is_live(other)]
                        final(self).spec_is_live(other) == old(self).spec_is_live(other)
                },
                Err(e) => e is Internal && final(self)@ == old(self)@,
            },
    {
        if !self.is_live(id) {
            return Err(Error::Internal("file access by a process that is not running".to_string()));
        }
        if mode.is_empty() {
            return Err(Error::Internal("file access without a mode".to_string()));
        }
        let ghost before = self@;
        let ghost event = EventView::FileOpen { id, path: path@, mode, is_directory };
        self.events.push(Event::FileOpen { id, path: slice_to_vec(path), mode, is_directory });
        proof {
            assert(self@ =~= before.push(event));
            let last = before.len() as int;
            lemma_push_keeps_prefix(before, event, last, id);
            lemma_push_keeps_valid(before, event);
            assert forall|other: ProcessId| #[trigger]
                added(self@, other) == added(before, other) by {
                lemma_push_records(before, event, other);
            }
            assert forall|other: ProcessId| #[trigger]
                exited(self@, other) == exited(before, other) by {
                lemma_push_records(before, event, other);
            }
        }
        Ok(())
    }

    /// Record the death of a thread or process.
    ///
    /// This fails, and records nothing, if `id` is not the identifier of a
    /// process that is recorded and has not ended.
    pub fn process_exit(&mut self, id: ProcessId, status: ExitStatus) -> (r: Result<(), Error>)
        requires
            old(self).wf(),
        ensures
            final(self).wf(),
            final(self).destination() == old(self).destination(),
            final(self).process_count() == old(self).process_count(),
            r is Ok <==> old(self).spec_is_live(id),
            match r {
                Ok(()) => {
                    &&& final(self)@ == old(self)@.push(EventView::ProcessExit { id, status })
                    &&& forall|other: ProcessId|
                        #![trigger final(self).spec_is_live(other)]
                        final(self).spec_is_live(other) == (other != id && old(self).spec_is_live(
                            other,
                        ))
                },
                Err(e) => e is Internal && final(self)@ == old(self)@,
            },
    {
        if !self.is_live(id) {
            return Err(Error::Internal("exit of a process that is not running".to_string()));
        }
        let ghost before = self@;
        let ghost event = EventView::ProcessExit { id, status };
        self.events.push(Event::ProcessExit { id, status });
        self.running.set(id.0 as usize, false);
        proof {
            assert(self@ =~= before.push(event));
            let last = before.len() as int;
            lemma_push_keeps_prefix(before, event, last, id);
            lemma_push_keeps_valid(before, event);
            assert forall|other: ProcessId| #[trigger]
                added(self@, other) == added(before, other) by {
                lemma_push_records(before, event, other);
            }
            assert forall|other: ProcessId| #[trigger]
                exited(self@, other) == (other == id || exited(before, other)) by {
                lemma_push_records(before, event, other);
            }
        }
        Ok(())
    }

    /// Commit the trace.
    ///
    /// The database is used up, and the trace comes back with every event
    /// that was recorded, in the order of recording.
    pub fn commit(self) -> (r: Result<Trace, Error>)
        requires
            self.wf(),
        ensures
            r matches Ok(trace) && trace@ == self@ && trace.destination() == self.destination()
                && valid_log(trace@),
    {
        Ok(Trace { destination: self.destination, events: self.events })
    }
}

impl Trace {
    /// The place where the trace is to be kept.
    pub closed spec fn destination(&self) -> Seq<u8> {
        self.destination@
    }

    /// Returns the place where the trace is to be kept.
    pub fn path(&self) -> (path: &[u8])
        ensures
            path@ == self.destination(),
    {
        self.destination.as_slice()
    }

    /// Returns the events of the trace, oldest first.
    pub fn events(&self) -> (events: &Vec<Event>)
        ensures
            views(events@) == self@,
    {
        &self.events
    }
}

} // verus!
