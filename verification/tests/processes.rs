use std::rc::Rc;

use nix::sys::signal::Signal;
use reprozip::{
    Database, Event, ExitStatus, ProcessId, Processes, Thread, ThreadGroup, ThreadInfo,
};

fn group(dir: &[u8]) -> Rc<ThreadGroup> {
    Rc::new(ThreadGroup {
        working_dir: dir.to_vec(),
    })
}

fn empty_registry() -> (Processes, Database) {
    (Processes::new(), Database::new(b"/tmp/db").unwrap())
}

#[test]
fn new_registry_is_empty() {
    let processes = Processes::new();
    assert!(processes.is_empty());
    assert_eq!(processes.len(), 0);
    assert!(!processes.has_tid(1));
}

#[test]
fn first_process_is_allocated_and_recorded() {
    let (mut processes, mut db) = empty_registry();
    let shared = group(b"/home/user");
    let id = processes.add_first(4321, shared.clone(), &mut db).unwrap();
    assert_eq!(id, ProcessId(0));
    assert!(processes.has_tid(4321));
    assert!(!processes.is_empty());
    assert_eq!(processes.len(), 1);
    assert_eq!(
        processes.get_by_tid(4321),
        &Thread::Allocated(ThreadInfo {
            identifier: id,
            tid: 4321,
            thread_group: shared,
        })
    );
    assert_eq!(
        db.events(),
        &vec![Event::AddProcess {
            id,
            parent: None,
            working_dir: b"/home/user".to_vec(),
            is_thread: false,
        }]
    );
}

#[test]
fn both_maps_lead_to_the_same_thread() {
    let (mut processes, mut db) = empty_registry();
    let root = processes.add_first(10, group(b"/"), &mut db).unwrap();
    let child = processes
        .add_child(11, group(b"/"), root, false, &mut db)
        .unwrap();
    for (tid, id) in [(10, root), (11, child)] {
        assert_eq!(processes.get_by_tid(tid).tid(), tid);
        assert_eq!(processes.get_by_tid(tid).identifier(), Some(id));
        assert_eq!(processes.get_by_id(id).tid(), tid);
        assert_eq!(processes.get_by_id(id).identifier(), Some(id));
    }
}

#[test]
fn child_is_recorded_with_its_parent() {
    let (mut processes, mut db) = empty_registry();
    let root = processes.add_first(10, group(b"/"), &mut db).unwrap();
    let child = processes
        .add_child(11, group(b"/var"), root, true, &mut db)
        .unwrap();
    assert_eq!(child, ProcessId(1));
    assert!(matches!(processes.get_by_tid(11), Thread::Allocated(_)));
    assert_eq!(
        db.events()[1],
        Event::AddProcess {
            id: child,
            parent: Some(root),
            working_dir: b"/var".to_vec(),
            is_thread: true,
        }
    );
}

#[test]
fn unknown_thread_becomes_allocated_under_the_same_tid() {
    let (mut processes, mut db) = empty_registry();
    let root = processes.add_first(10, group(b"/"), &mut db).unwrap();
    processes.add_unknown(77).unwrap();
    assert_eq!(processes.get_by_tid(77), &Thread::Unknown { tid: 77 });
    assert_eq!(processes.get_by_tid(77).identifier(), None);
    assert_eq!(db.events().len(), 1);
    let shared = group(b"/");
    let child = processes
        .add_child(77, shared.clone(), root, false, &mut db)
        .unwrap();
    assert_eq!(processes.len(), 2);
    assert_eq!(
        processes.get_by_tid(77),
        &Thread::Allocated(ThreadInfo {
            identifier: child,
            tid: 77,
            thread_group: shared,
        })
    );
    assert_eq!(processes.get_by_id(child).tid(), 77);
}

#[test]
fn child_of_a_parent_that_is_not_recorded_changes_nothing() {
    let (mut processes, mut db) = empty_registry();
    processes.add_first(10, group(b"/"), &mut db).unwrap();
    assert!(processes
        .add_child(11, group(b"/"), ProcessId(5), false, &mut db)
        .is_err());
    assert!(!processes.has_tid(11));
    assert_eq!(processes.len(), 1);
    assert_eq!(db.events().len(), 1);
}

#[test]
fn promotion_happens_at_the_first_stop_only() {
    let (mut processes, mut db) = empty_registry();
    processes.add_first(10, group(b"/"), &mut db).unwrap();
    processes.add_unknown(11).unwrap();
    assert!(processes.promote_on_first_stop(10));
    assert!(matches!(processes.get_by_tid(10), Thread::Attached(_)));
    assert_eq!(processes.get_by_tid(10).identifier(), Some(ProcessId(0)));
    assert!(!processes.promote_on_first_stop(10));
    assert!(matches!(processes.get_by_tid(10), Thread::Attached(_)));
    assert!(!processes.promote_on_first_stop(11));
    assert_eq!(processes.get_by_tid(11), &Thread::Unknown { tid: 11 });
}

#[test]
fn exit_removes_the_thread_and_records_its_status() {
    let (mut processes, mut db) = empty_registry();
    let root = processes.add_first(10, group(b"/"), &mut db).unwrap();
    let child = processes
        .add_child(11, group(b"/"), root, false, &mut db)
        .unwrap();
    processes.promote_on_first_stop(11);
    processes.exit(11, ExitStatus::Signal(Signal::SIGKILL), &mut db).unwrap();
    assert!(!processes.has_tid(11));
    assert!(processes.has_tid(10));
    assert!(!db.is_live(child));
    assert!(db.is_live(root));
    assert_eq!(
        db.events()[2],
        Event::ProcessExit {
            id: child,
            status: ExitStatus::Signal(Signal::SIGKILL),
        }
    );
    processes.exit(10, ExitStatus::Return(0), &mut db).unwrap();
    assert!(processes.is_empty());
    assert_eq!(
        db.events()[3],
        Event::ProcessExit {
            id: root,
            status: ExitStatus::Return(0),
        }
    );
}

#[test]
fn exit_of_an_unknown_thread_leaves_no_record() {
    let (mut processes, mut db) = empty_registry();
    processes.add_first(10, group(b"/"), &mut db).unwrap();
    processes.add_unknown(11).unwrap();
    processes.exit(11, ExitStatus::Return(0), &mut db).unwrap();
    assert!(!processes.has_tid(11));
    assert_eq!(processes.len(), 1);
    assert_eq!(db.events().len(), 1);
}

#[test]
fn tid_can_be_used_again_after_exit() {
    let (mut processes, mut db) = empty_registry();
    let root = processes.add_first(10, group(b"/"), &mut db).unwrap();
    let first = processes
        .add_child(11, group(b"/"), root, false, &mut db)
        .unwrap();
    processes.exit(11, ExitStatus::Return(0), &mut db).unwrap();
    let second = processes
        .add_child(11, group(b"/"), root, false, &mut db)
        .unwrap();
    assert_ne!(first, second);
    assert_eq!(processes.get_by_tid(11).identifier(), Some(second));
    assert_eq!(processes.get_by_id(second).tid(), 11);
}

#[test]
fn threads_of_one_process_share_its_group() {
    let (mut processes, mut db) = empty_registry();
    let shared = group(b"/");
    let root = processes.add_first(10, shared.clone(), &mut db).unwrap();
    processes
        .add_child(11, shared.clone(), root, true, &mut db)
        .unwrap();
    assert_eq!(Rc::strong_count(&shared), 3);
    processes.exit(11, ExitStatus::Return(0), &mut db).unwrap();
    assert_eq!(Rc::strong_count(&shared), 2);
    processes.exit(10, ExitStatus::Return(0), &mut db).unwrap();
    assert_eq!(Rc::strong_count(&shared), 1);
}

#[test]
fn thread_can_be_changed_in_place() {
    let (mut processes, mut db) = empty_registry();
    let root = processes.add_first(10, group(b"/"), &mut db).unwrap();
    let shared = group(b"/");
    *processes.get_by_tid_mut(10) = Thread::Attached(ThreadInfo {
        identifier: root,
        tid: 10,
        thread_group: shared.clone(),
    });
    assert!(matches!(processes.get_by_tid(10), Thread::Attached(_)));
    *processes.get_by_id_mut(root) = Thread::Allocated(ThreadInfo {
        identifier: root,
        tid: 10,
        thread_group: shared,
    });
    assert!(matches!(processes.get_by_id(root), Thread::Allocated(_)));
    assert_eq!(processes.len(), 1);
}
