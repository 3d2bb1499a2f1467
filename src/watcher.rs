//! Handling of one debounced batch of filesystem events for a watched root.
//! The batch is processed in arrival order with a single slot for a pending
//! rename-from event; the result is the list of catalog operations, new
//! files and problems, in the order they arose. Running the operations,
//! ingesting the new files and logging the problems is left to the caller.

use vstd::prelude::*;
use vstd::string::*;
use crate::query::{has_prefix, is_prefix_of};
use crate::uuid::UUID;

verus! {

/// Kinds of creation event.
#[derive(PartialEq, Eq, Structural, Clone, Copy, Debug)]
pub enum CreateKind {
    Any,
    File,
    Folder,
    Other,
}

/// Kinds of rename event.
#[derive(PartialEq, Eq, Structural, Clone, Copy, Debug)]
pub enum RenameMode {
    Any,
    To,
    From,
    Both,
    Other,
}

/// Kinds of modification event.
#[derive(PartialEq, Eq, Structural, Clone, Copy, Debug)]
pub enum ModifyKind {
    Any,
    Data,
    Metadata,
    Name(RenameMode),
    Other,
}

/// Kinds of removal event.
#[derive(PartialEq, Eq, Structural, Clone, Copy, Debug)]
pub enum RemoveKind {
    Any,
    File,
    Folder,
    Other,
}

/// Kinds of filesystem event.
#[derive(PartialEq, Eq, Structural, Clone, Copy, Debug)]
pub enum EventKind {
    Any,
    Access,
    Create(CreateKind),
    Modify(ModifyKind),
    Remove(RemoveKind),
    Other,
}

/// What the filesystem holds at a path when the batch is handled.
#[derive(PartialEq, Eq, Structural, Clone, Copy, Debug)]
pub enum PathKind {
    Dir,
    File,
    /// Nothing, or something that is neither a regular file nor a folder.
    Other,
}

/// A path named by an event, with what the filesystem holds there.
#[derive(Debug)]
pub struct EventPath {
    pub path: String,
    pub kind: PathKind,
}

/// One debounced filesystem event.
#[derive(Debug)]
pub struct FsEvent {
    pub kind: EventKind,
    pub paths: Vec<EventPath>,
}

/// An operation on the catalog.
#[derive(Debug)]
pub enum CatalogOp {
    /// Move the file at `from` to `to`, keeping its identifier.
    Rename { from: String, to: String },
    /// Delete the file at `path`, cascading to what depends on it.
    Remove { path: String },
}

/// A problem met while handling a batch; it is logged and handling goes on.
#[derive(PartialEq, Eq, Structural, Clone, Copy, Debug)]
pub enum WatchIssue {
    /// The event names no path where one is needed.
    MissingPath,
    /// A two-path rename event does not name exactly two paths.
    WrongPathCount,
    /// A rename pairs a folder with a file.
    DirectoryFileMismatch,
    /// A rename-to event arrived with no rename-from pending.
    ToWithoutFrom,
    /// A rename-from event arrived while another was pending.
    FromWhilePending,
    /// The batch ended with a rename-from pending.
    UnmatchedFrom,
}

/// One result of handling a batch.
#[derive(Debug)]
pub enum WatchOutput {
    Op(CatalogOp),
    NewFile(String),
    Issue(WatchIssue),
}

/// Whether every path of the event lies under the root (given with its
/// trailing separator).
pub open spec fn all_under_root(paths: Seq<EventPath>, root: Seq<char>) -> bool {
    forall|i: int| 0 <= i < paths.len() ==> is_prefix_of(root, #[trigger] paths[i].path@)
}

/// What renaming `from` to `to` gives: nothing for two folders, a problem
/// for a folder and a file, a catalog rename otherwise.
pub open spec fn rename_outputs(from: EventPath, to: EventPath) -> Seq<WatchOutput> {
    if from.kind == PathKind::Dir && to.kind == PathKind::Dir {
        Seq::empty()
    } else if from.kind == PathKind::Dir || to.kind == PathKind::Dir {
        seq![WatchOutput::Issue(WatchIssue::DirectoryFileMismatch)]
    } else {
        seq![WatchOutput::Op(CatalogOp::Rename { from: from.path, to: to.path })]
    }
}

/// The pending rename-from after an event, and what the event gives.
pub open spec fn event_step(slot: Option<EventPath>, e: FsEvent, root: Seq<char>) -> (
    Option<EventPath>,
    Seq<WatchOutput>,
) {
    let ps = e.paths@;
    let missing = seq![WatchOutput::Issue(WatchIssue::MissingPath)];
    if !all_under_root(ps, root) {
        (slot, Seq::empty())
    } else {
        match e.kind {
            EventKind::Create(c) => match c {
                CreateKind::Folder => (slot, Seq::empty()),
                CreateKind::File => if ps.len() == 0 {
                    (slot, missing)
                } else {
                    (slot, seq![WatchOutput::NewFile(ps[0].path)])
                },
                _ => if ps.len() == 0 {
                    (slot, missing)
                } else if ps[0].kind == PathKind::File {
                    (slot, seq![WatchOutput::NewFile(ps[0].path)])
                } else {
                    (slot, Seq::empty())
                },
            },
            EventKind::Modify(m) => match m {
                ModifyKind::Data => if ps.len() == 0 {
                    (slot, missing)
                } else if ps[0].kind == PathKind::File {
                    (
                        slot,
                        seq![
                            WatchOutput::Op(CatalogOp::Remove { path: ps[0].path }),
                            WatchOutput::NewFile(ps[0].path),
                        ],
                    )
                } else {
                    (slot, Seq::empty())
                },
                ModifyKind::Name(mode) => match mode {
                    RenameMode::From => if slot is Some {
                        (slot, seq![WatchOutput::Issue(WatchIssue::FromWhilePending)])
                    } else if ps.len() == 0 {
                        (slot, missing)
                    } else {
                        (Some(ps[0]), Seq::empty())
                    },
                    RenameMode::To => if slot is None {
                        (slot, seq![WatchOutput::Issue(WatchIssue::ToWithoutFrom)])
                    } else if ps.len() == 0 {
                        (slot, missing)
                    } else {
                        (None, rename_outputs(slot->Some_0, ps[0]))
                    },
                    _ => if ps.len() != 2 {
                        (slot, seq![WatchOutput::Issue(WatchIssue::WrongPathCount)])
                    } else {
                        (slot, rename_outputs(ps[0], ps[1]))
                    },
                },
                _ => (slot, Seq::empty()),
            },
            EventKind::Remove(r) => match r {
                RemoveKind::Folder => (slot, Seq::empty()),
                RemoveKind::File => if ps.len() == 0 {
                    (slot, missing)
                } else {
                    (slot, seq![WatchOutput::Op(CatalogOp::Remove { path: ps[0].path })])
                },
                _ => if ps.len() == 0 {
                    (slot, missing)
                } else if ps[0].kind != PathKind::Dir {
                    (slot, seq![WatchOutput::Op(CatalogOp::Remove { path: ps[0].path })])
                } else {
                    (slot, Seq::empty())
                },
            },
            _ => (slot, Seq::empty()),
        }
    }
}

/// The pending rename-from after the events, and what they give, in order.
pub open spec fn events_run(events: Seq<FsEvent>, root: Seq<char>) -> (
    Option<EventPath>,
    Seq<WatchOutput>,
)
    decreases events.len(),
{
    if events.len() == 0 {
        (None, Seq::empty())
    } else {
        let (slot, out) = events_run(events.drop_last(), root);
        let (slot2, more) = event_step(slot, events.last(), root);
        (slot2, out + more)
    }
}

/// What a batch gives: what its events give, then a problem if a
/// rename-from is still pending at the end.
pub open spec fn batch_outputs(events: Seq<FsEvent>, root: Seq<char>) -> Seq<WatchOutput> {
    let (slot, out) = events_run(events, root);
    if slot is Some {
        out.push(WatchOutput::Issue(WatchIssue::UnmatchedFrom))
    } else {
        out
    }
}

/// What a catalog operation does to the catalog's files, seen as a map from
/// path to identifier: a rename moves the identifier from the old path to
/// the new one; a removal drops the path. An operation on a path that the
/// catalog does not hold changes nothing.
pub open spec fn apply_catalog_op(files: Map<Seq<char>, UUID>, op: CatalogOp) -> Map<Seq<char>, UUID> {
    match op {
        CatalogOp::Rename { from, to } => if files.contains_key(from@) {
            files.remove(from@).insert(to@, files[from@])
        } else {
            files
        },
        CatalogOp::Remove { path } => files.remove(path@),
    }
}

/// Renaming a file to a free path and back restores the catalog, and the
/// file keeps its identifier throughout.
pub proof fn lemma_rename_there_and_back(
    files: Map<Seq<char>, UUID>,
    a: String,
    b: String,
    a2: String,
    b2: String,
)
    requires
        files.contains_key(a@),
        !files.contains_key(b@),
        a2@ == a@,
        b2@ == b@,
    ensures
        apply_catalog_op(files, CatalogOp::Rename { from: a, to: b })[b@] == files[a@],
        apply_catalog_op(
            apply_catalog_op(files, CatalogOp::Rename { from: a, to: b }),
            CatalogOp::Rename { from: b2, to: a2 },
        ) == files,
{
    let mid = apply_catalog_op(files, CatalogOp::Rename { from: a, to: b });
    assert(mid.contains_key(b2@));
    assert(apply_catalog_op(mid, CatalogOp::Rename { from: b2, to: a2 }) =~= files);
}

/// A removed path is no longer in the catalog.
pub proof fn lemma_remove_drops_path(files: Map<Seq<char>, UUID>, path: String)
    ensures
        !apply_catalog_op(files, CatalogOp::Remove { path }).contains_key(path@),
{
}

fn copy_path(p: &EventPath) -> (r: EventPath)
    ensures
        r == *p,
{
    EventPath { path: p.path.clone(), kind: p.kind }
}

fn paths_under_root(paths: &Vec<EventPath>, root: &str) -> (r: bool)
    ensures
        r == all_under_root(paths@, root@),
{
    let mut i: usize = 0;
    while i < paths.len()
        invariant
            0 <= i <= paths@.len(),
            forall|j: int| 0 <= j < i ==> is_prefix_of(root@, #[trigger] paths@[j].path@),
        decreases paths@.len() - i,
    {
        if !has_prefix(paths[i].path.as_str(), root) {
            return false;
        }
        i = i + 1;
    }
    true
}

fn rename_output(from: &EventPath, to: &EventPath, out: &mut Vec<WatchOutput>)
    ensures
        final(out)@ == old(out)@ + rename_outputs(*from, *to),
{
    if from.kind == PathKind::Dir && to.kind == PathKind::Dir {
        assert(old(out)@ + rename_outputs(*from, *to) =~= old(out)@);
    } else if from.kind == PathKind::Dir || to.kind == PathKind::Dir {
        out.push(WatchOutput::Issue(WatchIssue::DirectoryFileMismatch));
        assert(final(out)@ =~= old(out)@ + rename_outputs(*from, *to));
    } else {
        out.push(
            WatchOutput::Op(CatalogOp::Rename { from: from.path.clone(), to: to.path.clone() }),
        );
        assert(final(out)@ =~= old(out)@ + rename_outputs(*from, *to));
    }
}

/// Handles one event: updates the pending rename-from and appends what the
/// event gives.
pub fn handle_event(
    slot: &mut Option<EventPath>,
    e: &FsEvent,
    root: &str,
    out: &mut Vec<WatchOutput>,
)
    ensures
        *final(slot) == event_step(*old(slot), *e, root@).0,
        final(out)@ == old(out)@ + event_step(*old(slot), *e, root@).1,
{
    let ghost step = event_step(*old(slot), *e, root@);
    let n = e.paths.len();
    if !paths_under_root(&e.paths, root) {
        assert(old(out)@ + step.1 =~= old(out)@);
        return ;
    }
    match e.kind {
        EventKind::Create(c) => match c {
            CreateKind::Folder => {
                assert(old(out)@ + step.1 =~= old(out)@);
            },
            CreateKind::File => {
                if n == 0 {
                    out.push(WatchOutput::Issue(WatchIssue::MissingPath));
                } else {
                    out.push(WatchOutput::NewFile(e.paths[0].path.clone()));
                }
                assert(final(out)@ =~= old(out)@ + step.1);
            },
            _ => {
                if n == 0 {
                    out.push(WatchOutput::Issue(WatchIssue::MissingPath));
                    assert(final(out)@ =~= old(out)@ + step.1);
                } else if e.paths[0].kind == PathKind::File {
                    out.push(WatchOutput::NewFile(e.paths[0].path.clone()));
                    assert(final(out)@ =~= old(out)@ + step.1);
                } else {
                    assert(old(out)@ + step.1 =~= old(out)@);
                }
            },
        },
        EventKind::Modify(m) => match m {
            ModifyKind::Data => {
                if n == 0 {
                    out.push(WatchOutput::Issue(WatchIssue::MissingPath));
                    assert(final(out)@ =~= old(out)@ + step.1);
                } else if e.paths[0].kind == PathKind::File {
                    out.push(WatchOutput::Op(CatalogOp::Remove { path: e.paths[0].path.clone() }));
                    out.push(WatchOutput::NewFile(e.paths[0].path.clone()));
                    assert(final(out)@ =~= old(out)@ + step.1);
                } else {
                    assert(old(out)@ + step.1 =~= old(out)@);
                }
            },
            ModifyKind::Name(mode) => match mode {
                RenameMode::From => {
                    if slot.is_some() {
                        out.push(WatchOutput::Issue(WatchIssue::FromWhilePending));
                        assert(final(out)@ =~= old(out)@ + step.1);
                    } else if n == 0 {
                        out.push(WatchOutput::Issue(WatchIssue::MissingPath));
                        assert(final(out)@ =~= old(out)@ + step.1);
                    } else {
                        *slot = Some(copy_path(&e.paths[0]));
                        assert(old(out)@ + step.1 =~= old(out)@);
                    }
                },
                RenameMode::To => {
                    if slot.is_none() {
                        out.push(WatchOutput::Issue(WatchIssue::ToWithoutFrom));
                        assert(final(out)@ =~= old(out)@ + step.1);
                    } else if n == 0 {
                        out.push(WatchOutput::Issue(WatchIssue::MissingPath));
                        assert(final(out)@ =~= old(out)@ + step.1);
                    } else {
                        let from = slot.take();
                        match from {
                            Some(f) => rename_output(&f, &e.paths[0], out),
                            None => {},
                        }
                    }
                },
                _ => {
                    if n != 2 {
                        out.push(WatchOutput::Issue(WatchIssue::WrongPathCount));
                        assert(final(out)@ =~= old(out)@ + step.1);
                    } else {
                        rename_output(&e.paths[0], &e.paths[1], out);
                    }
                },
            },
            _ => {
                assert(old(out)@ + step.1 =~= old(out)@);
            },
        },
        EventKind::Remove(r) => match r {
            RemoveKind::Folder => {
                assert(old(out)@ + step.1 =~= old(out)@);
            },
            RemoveKind::File => {
                if n == 0 {
                    out.push(WatchOutput::Issue(WatchIssue::MissingPath));
                } else {
                    out.push(WatchOutput::Op(CatalogOp::Remove { path: e.paths[0].path.clone() }));
                }
                assert(final(out)@ =~= old(out)@ + step.1);
            },
            _ => {
                if n == 0 {
                    out.push(WatchOutput::Issue(WatchIssue::MissingPath));
                    assert(final(out)@ =~= old(out)@ + step.1);
                } else if e.paths[0].kind != PathKind::Dir {
                    out.push(WatchOutput::Op(CatalogOp::Remove { path: e.paths[0].path.clone() }));
                    assert(final(out)@ =~= old(out)@ + step.1);
                } else {
                    assert(old(out)@ + step.1 =~= old(out)@);
                }
            },
        },
        _ => {
            assert(old(out)@ + step.1 =~= old(out)@);
        },
    }
}

/// Handles a debounced batch for the watched root `root` (with its trailing
/// separator): events whose paths are not all under the root are dropped;
/// the others are handled in order.
pub fn handle_batch(events: &Vec<FsEvent>, root: &str) -> (r: Vec<WatchOutput>)
    ensures
        r@ == batch_outputs(events@, root@),
{
    let mut slot: Option<EventPath> = None;
    let mut out: Vec<WatchOutput> = Vec::new();
    let mut i: usize = 0;
    while i < events.len()
        invariant
            0 <= i <= events@.len(),
            (slot, out@) == events_run(events@.subrange(0, i as int), root@),
        decreases events@.len() - i,
    {
        assert(events@.subrange(0, i + 1).drop_last() =~= events@.subrange(0, i as int));
        handle_event(&mut slot, &events[i], root, &mut out);
        i = i + 1;
    }
    assert(events@.subrange(0, events@.len() as int) =~= events@);
    if slot.is_some() {
        out.push(WatchOutput::Issue(WatchIssue::UnmatchedFrom));
    }
    out
}

} // verus!
