use nix::sys::signal::Signal;
use reprozip::{Database, Error, Event, ExitStatus, FileOp, ProcessId};

fn open() -> Database {
    Database::new(b"/tmp/db").unwrap()
}

#[test]
fn new_database_is_empty() {
    let db = open();
    assert!(db.events().is_empty());
    assert_eq!(db.path(), b"/tmp/db");
    assert!(!db.is_live(ProcessId(0)));
}

#[test]
fn identifiers_are_dense_and_rising() {
    let mut db = open();
    let root = db.add_process(None, b"/", false).unwrap();
    let child = db.add_process(Some(root), b"/home", false).unwrap();
    let thread = db.add_process(Some(child), b"/home", true).unwrap();
    assert_eq!(root, ProcessId(0));
    assert_eq!(child, ProcessId(1));
    assert_eq!(thread, ProcessId(2));
}

#[test]
fn identifiers_are_never_handed_out_twice() {
    let mut db = open();
    let mut seen = vec![];
    let mut parent = None;
    for _ in 0..50 {
        let id = db.add_process(parent, b"/", false).unwrap();
        assert!(!seen.contains(&id));
        seen.push(id);
        db.process_exit(id, ExitStatus::Return(0)).unwrap();
        parent = Some(id);
    }
    assert_eq!(seen.len(), 50);
}

#[test]
fn add_process_records_what_it_was_given() {
    let mut db = open();
    let root = db.add_process(None, b"/srv", false).unwrap();
    let thread = db.add_process(Some(root), b"/srv/www", true).unwrap();
    assert_eq!(
        db.events(),
        &vec![
            Event::AddProcess {
                id: root,
                parent: None,
                working_dir: b"/srv".to_vec(),
                is_thread: false,
            },
            Event::AddProcess {
                id: thread,
                parent: Some(root),
                working_dir: b"/srv/www".to_vec(),
                is_thread: true,
            },
        ]
    );
}

#[test]
fn parent_must_be_recorded() {
    let mut db = open();
    assert!(matches!(
        db.add_process(Some(ProcessId(0)), b"/", false),
        Err(Error::Internal(_))
    ));
    let root = db.add_process(None, b"/", false).unwrap();
    assert!(matches!(
        db.add_process(Some(ProcessId(1)), b"/", false),
        Err(Error::Internal(_))
    ));
    assert_eq!(db.events().len(), 1);
    assert_eq!(db.add_process(Some(root), b"/", false).unwrap(), ProcessId(1));
}

#[test]
fn parent_may_have_ended() {
    let mut db = open();
    let root = db.add_process(None, b"/", false).unwrap();
    db.process_exit(root, ExitStatus::Return(0)).unwrap();
    assert_eq!(db.add_process(Some(root), b"/", false).unwrap(), ProcessId(1));
}

#[test]
fn file_open_is_recorded_as_observed() {
    let mut db = open();
    let root = db.add_process(None, b"/", false).unwrap();
    db.add_file_open(root, b"../etc//passwd", FileOp::read(), false)
        .unwrap();
    db.add_file_open(root, b"/tmp", FileOp::wdir().union(FileOp::stat()), true)
        .unwrap();
    assert_eq!(
        db.events()[1],
        Event::FileOpen {
            id: root,
            path: b"../etc//passwd".to_vec(),
            mode: FileOp::read(),
            is_directory: false,
        }
    );
    assert_eq!(
        db.events()[2],
        Event::FileOpen {
            id: root,
            path: b"/tmp".to_vec(),
            mode: FileOp::from_bits(0b01100).unwrap(),
            is_directory: true,
        }
    );
}

#[test]
fn file_open_needs_a_recorded_process() {
    let mut db = open();
    assert!(matches!(
        db.add_file_open(ProcessId(0), b"/etc", FileOp::stat(), true),
        Err(Error::Internal(_))
    ));
    db.add_process(None, b"/", false).unwrap();
    assert!(matches!(
        db.add_file_open(ProcessId(7), b"/etc", FileOp::stat(), true),
        Err(Error::Internal(_))
    ));
    assert_eq!(db.events().len(), 1);
}

#[test]
fn file_open_needs_a_mode() {
    let mut db = open();
    let root = db.add_process(None, b"/", false).unwrap();
    assert!(matches!(
        db.add_file_open(root, b"/etc", FileOp::empty(), true),
        Err(Error::Internal(_))
    ));
    assert_eq!(db.events().len(), 1);
}

#[test]
fn no_file_open_after_exit() {
    let mut db = open();
    let root = db.add_process(None, b"/", false).unwrap();
    db.add_file_open(root, b"/etc", FileOp::stat(), true).unwrap();
    db.process_exit(root, ExitStatus::Signal(Signal::SIGKILL)).unwrap();
    assert!(matches!(
        db.add_file_open(root, b"/etc", FileOp::stat(), true),
        Err(Error::Internal(_))
    ));
    assert_eq!(db.events().len(), 3);
}

#[test]
fn process_exits_once_and_after_its_creation() {
    let mut db = open();
    assert!(matches!(
        db.process_exit(ProcessId(0), ExitStatus::Return(0)),
        Err(Error::Internal(_))
    ));
    let root = db.add_process(None, b"/", false).unwrap();
    assert!(db.is_live(root));
    db.process_exit(root, ExitStatus::Return(2)).unwrap();
    assert!(!db.is_live(root));
    assert!(matches!(
        db.process_exit(root, ExitStatus::Return(2)),
        Err(Error::Internal(_))
    ));
    assert_eq!(
        db.events()[1],
        Event::ProcessExit {
            id: root,
            status: ExitStatus::Return(2),
        }
    );
    assert_eq!(db.events().len(), 2);
}

#[test]
fn exit_of_one_process_leaves_the_others_running() {
    let mut db = open();
    let root = db.add_process(None, b"/", false).unwrap();
    let child = db.add_process(Some(root), b"/", false).unwrap();
    db.process_exit(root, ExitStatus::Return(0)).unwrap();
    assert!(!db.is_live(root));
    assert!(db.is_live(child));
    db.add_file_open(child, b"/dev/null", FileOp::write(), false)
        .unwrap();
    db.process_exit(child, ExitStatus::Signal(Signal::SIGTERM)).unwrap();
    assert!(!db.is_live(child));
}

#[test]
fn commit_hands_back_every_event() {
    let mut db = open();
    let root = db.add_process(None, b"/", false).unwrap();
    db.add_file_open(root, b"/", FileOp::wdir(), true).unwrap();
    db.process_exit(root, ExitStatus::Return(0)).unwrap();
    let trace = db.commit().unwrap();
    assert_eq!(trace.path(), b"/tmp/db");
    assert_eq!(
        trace.events(),
        &vec![
            Event::AddProcess {
                id: root,
                parent: None,
                working_dir: b"/".to_vec(),
                is_thread: false,
            },
            Event::FileOpen {
                id: root,
                path: b"/".to_vec(),
                mode: FileOp::wdir(),
                is_directory: true,
            },
            Event::ProcessExit {
                id: root,
                status: ExitStatus::Return(0),
            },
        ]
    );
}

#[test]
fn commit_of_an_empty_database_is_an_empty_trace() {
    let trace = open().commit().unwrap();
    assert!(trace.events().is_empty());
}
