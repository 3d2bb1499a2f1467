use rover::watcher::{
    handle_batch, CatalogOp, CreateKind, EventKind, EventPath, FsEvent, ModifyKind, PathKind, RemoveKind,
    RenameMode, WatchIssue, WatchOutput,
};

const ROOT: &str = "/w/";

fn p(path: &str, kind: PathKind) -> EventPath {
    EventPath { path: path.to_string(), kind }
}

fn ev(kind: EventKind, paths: Vec<EventPath>) -> FsEvent {
    FsEvent { kind, paths }
}

fn describe(out: &[WatchOutput]) -> Vec<String> {
    out.iter()
        .map(|o| match o {
            WatchOutput::Op(CatalogOp::Rename { from, to }) => format!("rename {} {}", from, to),
            WatchOutput::Op(CatalogOp::Remove { path }) => format!("remove {}", path),
            WatchOutput::NewFile(path) => format!("new {}", path),
            WatchOutput::Issue(i) => format!("issue {:?}", i),
        })
        .collect()
}

#[test]
fn rename_pair_preserves_identity() {
    let events = vec![
        ev(EventKind::Modify(ModifyKind::Name(RenameMode::From)), vec![p("/w/a.jpg", PathKind::Other)]),
        ev(EventKind::Modify(ModifyKind::Name(RenameMode::To)), vec![p("/w/b.jpg", PathKind::File)]),
    ];
    assert_eq!(describe(&handle_batch(&events, ROOT)), vec!["rename /w/a.jpg /w/b.jpg"]);
}

#[test]
fn rename_there_and_back() {
    let events = vec![
        ev(EventKind::Modify(ModifyKind::Name(RenameMode::From)), vec![p("/w/a.jpg", PathKind::Other)]),
        ev(EventKind::Modify(ModifyKind::Name(RenameMode::To)), vec![p("/w/b.jpg", PathKind::Other)]),
        ev(EventKind::Modify(ModifyKind::Name(RenameMode::Both)), vec![p("/w/b.jpg", PathKind::Other), p("/w/a.jpg", PathKind::File)]),
    ];
    assert_eq!(
        describe(&handle_batch(&events, ROOT)),
        vec!["rename /w/a.jpg /w/b.jpg", "rename /w/b.jpg /w/a.jpg"]
    );
}

#[test]
fn create_file_and_folder() {
    let events = vec![
        ev(EventKind::Create(CreateKind::File), vec![p("/w/new.jpg", PathKind::File)]),
        ev(EventKind::Create(CreateKind::Folder), vec![p("/w/dir", PathKind::Dir)]),
        ev(EventKind::Create(CreateKind::Any), vec![p("/w/dir2", PathKind::Dir)]),
        ev(EventKind::Create(CreateKind::Any), vec![p("/w/c.png", PathKind::File)]),
        ev(EventKind::Create(CreateKind::Other), vec![p("/w/link", PathKind::Other)]),
    ];
    assert_eq!(describe(&handle_batch(&events, ROOT)), vec!["new /w/new.jpg", "new /w/c.png"]);
}

#[test]
fn modify_data_is_remove_then_create() {
    let events = vec![
        ev(EventKind::Modify(ModifyKind::Data), vec![p("/w/a.jpg", PathKind::File)]),
        ev(EventKind::Modify(ModifyKind::Metadata), vec![p("/w/a.jpg", PathKind::File)]),
        ev(EventKind::Modify(ModifyKind::Any), vec![p("/w/a.jpg", PathKind::File)]),
        ev(EventKind::Modify(ModifyKind::Other), vec![p("/w/a.jpg", PathKind::File)]),
    ];
    assert_eq!(describe(&handle_batch(&events, ROOT)), vec!["remove /w/a.jpg", "new /w/a.jpg"]);
}

#[test]
fn remove_events() {
    let events = vec![
        ev(EventKind::Remove(RemoveKind::File), vec![p("/w/cat.jpg", PathKind::Other)]),
        ev(EventKind::Remove(RemoveKind::Folder), vec![p("/w/dir", PathKind::Other)]),
        ev(EventKind::Remove(RemoveKind::Any), vec![p("/w/gone.jpg", PathKind::Other)]),
        ev(EventKind::Remove(RemoveKind::Any), vec![p("/w/still.jpg", PathKind::File)]),
        ev(EventKind::Remove(RemoveKind::Other), vec![p("/w/other.jpg", PathKind::Other)]),
        ev(EventKind::Remove(RemoveKind::Any), vec![p("/w/sub", PathKind::Dir)]),
    ];
    assert_eq!(
        describe(&handle_batch(&events, ROOT)),
        vec!["remove /w/cat.jpg", "remove /w/gone.jpg", "remove /w/still.jpg", "remove /w/other.jpg"]
    );
}

#[test]
fn rename_errors_are_reported() {
    let events = vec![
        ev(EventKind::Modify(ModifyKind::Name(RenameMode::To)), vec![p("/w/b.jpg", PathKind::File)]),
        ev(EventKind::Modify(ModifyKind::Name(RenameMode::From)), vec![p("/w/a.jpg", PathKind::Other)]),
        ev(EventKind::Modify(ModifyKind::Name(RenameMode::From)), vec![p("/w/c.jpg", PathKind::Other)]),
        ev(EventKind::Modify(ModifyKind::Name(RenameMode::Any)), vec![p("/w/c.jpg", PathKind::Other)]),
        ev(EventKind::Modify(ModifyKind::Name(RenameMode::Both)), vec![p("/w/d", PathKind::Dir), p("/w/e.jpg", PathKind::File)]),
        ev(EventKind::Modify(ModifyKind::Name(RenameMode::Both)), vec![p("/w/d", PathKind::Dir), p("/w/f", PathKind::Dir)]),
    ];
    let out = handle_batch(&events, ROOT);
    let issues: Vec<WatchIssue> = out
        .iter()
        .map(|o| match o {
            WatchOutput::Issue(i) => *i,
            _ => panic!("unexpected output"),
        })
        .collect();
    assert_eq!(
        issues,
        vec![
            WatchIssue::ToWithoutFrom,
            WatchIssue::FromWhilePending,
            WatchIssue::WrongPathCount,
            WatchIssue::DirectoryFileMismatch,
            WatchIssue::UnmatchedFrom,
        ]
    );
}

#[test]
fn events_outside_root_are_dropped() {
    let events = vec![
        ev(EventKind::Create(CreateKind::File), vec![p("/other/x.jpg", PathKind::File)]),
        ev(EventKind::Create(CreateKind::File), vec![p("/wx/y.jpg", PathKind::File)]),
        ev(EventKind::Remove(RemoveKind::File), vec![p("/w/z.jpg", PathKind::Other)]),
    ];
    assert_eq!(describe(&handle_batch(&events, ROOT)), vec!["remove /w/z.jpg"]);
}

#[test]
fn missing_paths_and_quiet_kinds() {
    let events = vec![
        ev(EventKind::Create(CreateKind::File), vec![]),
        ev(EventKind::Access, vec![p("/w/a.jpg", PathKind::File)]),
        ev(EventKind::Any, vec![]),
        ev(EventKind::Other, vec![]),
    ];
    assert_eq!(describe(&handle_batch(&events, ROOT)), vec!["issue MissingPath"]);
}

#[test]
fn empty_batch_gives_nothing() {
    assert!(handle_batch(&vec![], ROOT).is_empty());
}
