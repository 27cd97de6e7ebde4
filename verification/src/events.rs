//! The events of a trace, and what makes a sequence of them a trace.

use vstd::prelude::*;

use crate::database::ProcessId;
use crate::fileop::FileOp;
use crate::status::ExitStatus;

verus! {

/// One entry of a trace.
#[derive(Debug, PartialEq, Eq)]
pub enum Event {
    /// A thread or process was created.
    AddProcess { id: ProcessId, parent: Option<ProcessId>, working_dir: Vec<u8>, is_thread: bool },
    /// A process accessed a file.
    FileOpen { id: ProcessId, path: Vec<u8>, mode: FileOp, is_directory: bool },
    /// A thread or process ended.
    ProcessExit { id: ProcessId, status: ExitStatus },
}

/// An entry of a trace as a mathematical value.
pub enum EventView {
    AddProcess { id: ProcessId, parent: Option<ProcessId>, working_dir: Seq<u8>, is_thread: bool },
    FileOpen { id: ProcessId, path: Seq<u8>, mode: FileOp, is_directory: bool },
    ProcessExit { id: ProcessId, status: ExitStatus },
}

impl View for Event {
    type V = EventView;

    open spec fn view(&self) -> EventView {
        match *self {
            Event::AddProcess { id, parent, working_dir, is_thread } => EventView::AddProcess {
                id,
                parent,
                working_dir: working_dir@,
                is_thread,
            },
            Event::FileOpen { id, path, mode, is_directory } => EventView::FileOpen {
                id,
                path: path@,
                mode,
                is_directory,
            },
            Event::ProcessExit { id, status } => EventView::ProcessExit { id, status },
        }
    }
}

/// The events of `events`, each as a mathematical value.
pub open spec fn views(events: Seq<Event>) -> Seq<EventView> {
    events.map_values(|e: Event| e@)
}

/// Entry `i` of `log` records the creation of process `id`.
pub open spec fn adds(log: Seq<EventView>, i: int, id: ProcessId) -> bool {
    &&& 0 <= i < log.len()
    &&& log[i] matches EventView::AddProcess { id: added, .. }
    &&& added == id
}

/// Entry `i` of `log` records a file access by process `id`.
pub open spec fn opens(log: Seq<EventView>, i: int, id: ProcessId) -> bool {
    &&& 0 <= i < log.len()
    &&& log[i] matches EventView::FileOpen { id: opener, .. }
    &&& opener == id
}

/// Entry `i` of `log` records the end of process `id`.
pub open spec fn exits(log: Seq<EventView>, i: int, id: ProcessId) -> bool {
    &&& 0 <= i < log.len()
    &&& log[i] matches EventView::ProcessExit { id: exited, .. }
    &&& exited == id
}

/// Some entry of `log` before position `end` records the creation of `id`.
pub open spec fn added_before(log: Seq<EventView>, end: int, id: ProcessId) -> bool {
    exists|j: int| j < end && #[trigger] adds(log, j, id)
}

/// Some entry of `log` before position `end` records the end of `id`.
pub open spec fn exited_before(log: Seq<EventView>, end: int, id: ProcessId) -> bool {
    exists|j: int| j < end && #[trigger] exits(log, j, id)
}

/// `log` records the creation of `id`.
pub open spec fn added(log: Seq<EventView>, id: ProcessId) -> bool {
    added_before(log, log.len() as int, id)
}

/// `log` records the end of `id`.
pub open spec fn exited(log: Seq<EventView>, id: ProcessId) -> bool {
    exited_before(log, log.len() as int, id)
}

/// `log` records the creation of `id` and not yet its end.
pub open spec fn live(log: Seq<EventView>, id: ProcessId) -> bool {
    added(log, id) && !exited(log, id)
}

/// Entry `i` of `log` is in order after the entries before it: a process is
/// created once, under an identifier that is larger than those before it and
/// with a parent that was created before; a file is accessed by a process
/// that was created and has not ended, in at least one way; a process ends
/// once, after its creation.
pub open spec fn event_ok(log: Seq<EventView>, i: int) -> bool {
    match log[i] {
        EventView::AddProcess { id, parent, .. } => {
            &&& forall|j: int, other: ProcessId|
                j < i && #[trigger] adds(log, j, other) ==> other.0 < id.0
            &&& parent matches Some(p) ==> added_before(log, i, p)
        },
        EventView::FileOpen { id, mode, .. } => {
            &&& added_before(log, i, id)
            &&& !exited_before(log, i, id)
            &&& !mode.is_empty()
        },
        EventView::ProcessExit { id, .. } => {
            &&& added_before(log, i, id)
            &&& !exited_before(log, i, id)
        },
    }
}

/// Every entry of `log` is in order after the entries before it.
pub open spec fn valid_log(log: Seq<EventView>) -> bool {
    forall|i: int| 0 <= i < log.len() ==> #[trigger] event_ok(log, i)
}

/// Every process whose creation `log` records has ended in it.
pub open spec fn closed_log(log: Seq<EventView>) -> bool {
    forall|id: ProcessId| added(log, id) ==> exited(log, id)
}

/// What `log` says of the entries before `end` stays true when an entry is
/// appended to it.
pub proof fn lemma_push_keeps_prefix(log: Seq<EventView>, event: EventView, end: int, id: ProcessId)
    requires
        end <= log.len(),
    ensures
        added_before(log.push(event), end, id) == added_before(log, end, id),
        exited_before(log.push(event), end, id) == exited_before(log, end, id),
{
    let longer = log.push(event);
    if added_before(log, end, id) {
        let j = choose|j: int| j < end && adds(log, j, id);
        assert(adds(longer, j, id));
    }
    if added_before(longer, end, id) {
        let j = choose|j: int| j < end && adds(longer, j, id);
        assert(adds(log, j, id));
    }
    if exited_before(log, end, id) {
        let j = choose|j: int| j < end && exits(log, j, id);
        assert(exits(longer, j, id));
    }
    if exited_before(longer, end, id) {
        let j = choose|j: int| j < end && exits(longer, j, id);
        assert(exits(log, j, id));
    }
}

/// An entry that is in order stays in order when an entry is appended to
/// the log.
pub proof fn lemma_push_keeps_event_ok(log: Seq<EventView>, event: EventView, i: int)
    requires
        0 <= i < log.len(),
    ensures
        event_ok(log.push(event), i) == event_ok(log, i),
{
    let longer = log.push(event);
    match log[i] {
        EventView::AddProcess { id, parent, .. } => {
            assert forall|j: int, other: ProcessId| j < i implies adds(longer, j, other) == adds(
                log,
                j,
                other,
            ) by {}
        },
        EventView::FileOpen { id, .. } => {
            lemma_push_keeps_prefix(log, event, i, id);
        },
        EventView::ProcessExit { id, .. } => {
            lemma_push_keeps_prefix(log, event, i, id);
        },
    }
}

/// A log that is in order stays so when an entry is appended that is in
/// order after it.
pub proof fn lemma_push_keeps_valid(log: Seq<EventView>, event: EventView)
    requires
        valid_log(log),
        event_ok(log.push(event), log.len() as int),
    ensures
        valid_log(log.push(event)),
{
    let longer = log.push(event);
    assert forall|i: int| 0 <= i < longer.len() implies #[trigger] event_ok(longer, i) by {
        if i < log.len() {
            lemma_push_keeps_event_ok(log, event, i);
        }
    }
}

/// What a log records of a process after an entry was appended: what it
/// recorded before, and what the new entry says.
pub proof fn lemma_push_records(log: Seq<EventView>, event: EventView, id: ProcessId)
    ensures
        added(log.push(event), id) == (added(log, id) || (event matches EventView::AddProcess {
            id: new,
            ..
        } && new == id)),
        exited(log.push(event), id) == (exited(log, id) || (event matches EventView::ProcessExit {
            id: new,
            ..
        } && new == id)),
{
    let longer = log.push(event);
    let last = log.len() as int;
    lemma_push_keeps_prefix(log, event, last, id);
    if event matches EventView::AddProcess { id: new, .. } && new == id {
        assert(adds(longer, last, id));
    }
    if event matches EventView::ProcessExit { id: new, .. } && new == id {
        assert(exits(longer, last, id));
    }
}

/// Every identifier is handed out once: two entries of a log in order that
/// record the creation of one process are the same entry.
pub proof fn lemma_add_once(log: Seq<EventView>, i: int, j: int, id: ProcessId)
    requires
        valid_log(log),
        adds(log, i, id),
        adds(log, j, id),
    ensures
        i == j,
{
    if i < j {
        assert(event_ok(log, j));
    }
    if j < i {
        assert(event_ok(log, i));
    }
}

/// Identifiers rise: of two entries of a log in order that record the
/// creation of a process, the later one holds the larger identifier.
pub proof fn lemma_identifiers_rise(
    log: Seq<EventView>,
    i: int,
    j: int,
    first: ProcessId,
    second: ProcessId,
)
    requires
        valid_log(log),
        adds(log, i, first),
        adds(log, j, second),
        i < j,
    ensures
        first.0 < second.0,
{
    assert(event_ok(log, j));
}

/// The processes form a tree: an entry of a log in order that records the
/// creation of a process with a parent comes after an entry that records the
/// creation of that parent.
pub proof fn lemma_parent_first(log: Seq<EventView>, i: int) -> (j: int)
    requires
        valid_log(log),
        0 <= i < log.len(),
        log[i] matches EventView::AddProcess { parent: Some(_), .. },
    ensures
        j < i,
        log[i] matches EventView::AddProcess { parent: Some(p), .. } && adds(log, j, p),
{
    assert(event_ok(log, i));
    let p = log[i]->AddProcess_parent->Some_0;
    choose|j: int| j < i && adds(log, j, p)
}

/// A process ends once: two entries of a log in order that record the end
/// of one process are the same entry.
pub proof fn lemma_exit_once(log: Seq<EventView>, i: int, j: int, id: ProcessId)
    requires
        valid_log(log),
        exits(log, i, id),
        exits(log, j, id),
    ensures
        i == j,
{
    if i < j {
        assert(event_ok(log, j));
    }
    if j < i {
        assert(event_ok(log, i));
    }
}

/// A process ends after its creation: an entry of a log in order that
/// records the end of a process comes after the entry that records its
/// creation.
pub proof fn lemma_exit_after_add(log: Seq<EventView>, i: int, id: ProcessId) -> (j: int)
    requires
        valid_log(log),
        exits(log, i, id),
    ensures
        j < i,
        adds(log, j, id),
{
    assert(event_ok(log, i));
    choose|j: int| j < i && adds(log, j, id)
}

/// A file is accessed by a running process: an entry of a log in order that
/// records a file access comes after the entry that records the creation of
/// the process, and before any entry that records its end.
pub proof fn lemma_open_while_running(log: Seq<EventView>, i: int, id: ProcessId) -> (j: int)
    requires
        valid_log(log),
        opens(log, i, id),
    ensures
        j < i,
        adds(log, j, id),
        forall|k: int| exits(log, k, id) ==> i < k,
{
    assert(event_ok(log, i));
    choose|j: int| j < i && adds(log, j, id)
}

} // verus!
