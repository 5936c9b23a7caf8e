//! The state machine that a replication layer drives: it applies ordered
//! operations to the repository, and captures and restores its whole state.

use std::collections::HashMap;
use vstd::prelude::*;

use crate::db::{text_patch, Database, PurgeStats};
use crate::error::DatabaseError;
use crate::models::{views, FileRecord, Patch, WriteOp};
use crate::store::{Change, StoreView, WriteOpView};

verus! {

/// A patch of a text field in nested-option form, as mathematical values.
pub open spec fn patch_text_view(p: Patch<String>) -> Option<Option<Seq<char>>> {
    match p {
        Patch::Absent => None,
        Patch::Null => Some(None),
        Patch::Value(s) => Some(Some(s@)),
    }
}

/// A patch of the metadata field in nested-option form, as mathematical
/// values.
pub open spec fn patch_metadata_view(p: Patch<HashMap<String, serde_json::Value>>) -> Option<
    Option<Map<String, serde_json::Value>>,
> {
    match p {
        Patch::Absent => None,
        Patch::Null => Some(None),
        Patch::Value(m) => Some(Some(m@)),
    }
}

impl View for WriteOp {
    type V = WriteOpView;

    open spec fn view(&self) -> WriteOpView {
        match *self {
            WriteOp::CreateFile(f) => WriteOpView::CreateFile(f@),
            WriteOp::DeleteFile { id } => WriteOpView::DeleteFile { id: id@ },
            WriteOp::UpdateFile { id, alt, description, metadata, name, permalink, subject_id, updated_at } => {
                WriteOpView::UpdateFile {
                    id: id@,
                    now: updated_at,
                    change: Change {
                        alt: patch_text_view(alt),
                        description: patch_text_view(description),
                        metadata: patch_metadata_view(metadata),
                        name: patch_text_view(name),
                        permalink: crate::models::text_view(permalink),
                        subject_id: patch_text_view(subject_id),
                    },
                }
            },
        }
    }
}

/// The borrowed nested-option form of a text patch.
fn borrow_text(p: &Patch<String>) -> (r: Option<Option<&str>>)
    ensures
        text_patch(r) == patch_text_view(*p),
{
    match p {
        Patch::Absent => None,
        Patch::Null => Some(None),
        Patch::Value(s) => Some(Some(s.as_str())),
    }
}

/// The borrowed form of an optional text.
fn borrow_optional(t: &Option<String>) -> (r: Option<&str>)
    ensures
        crate::models::str_view(r) == crate::models::text_view(*t),
{
    match t {
        Some(s) => Some(s.as_str()),
        None => None,
    }
}

/// Full state snapshot for syncing lagging followers.
#[derive(Debug)]
pub struct FileSnapshot {
    pub files: Vec<FileRecord>,
}

/// The repository as a replicated state machine.
pub struct FileStateMachine {
    db: Database,
}

impl View for FileStateMachine {
    type V = StoreView;

    /// What the repository holds.
    closed spec fn view(&self) -> StoreView {
        self.db@
    }
}

impl FileStateMachine {
    pub fn new(db: Database) -> (r: Self)
        ensures
            r@ == db@,
    {
        Self { db }
    }

    /// The repository, for reads, which do not go through replication.
    pub fn database(&self) -> (r: &Database)
        ensures
            r@ == self@,
    {
        &self.db
    }

    /// Remove everything from the repository of this node. This is no
    /// replicated operation: it is for tests and for administration. It
    /// fails by the store alone.
    pub fn purge(&mut self) -> (r: Result<PurgeStats, DatabaseError>)
        ensures
            r matches Ok(stats) ==> {
                &&& final(self)@ == StoreView::empty()
                &&& old(self)@.files.dom().finite()
                &&& stats.files == old(self)@.files.dom().len()
            },
            r matches Err(e) ==> {
                &&& final(self)@ == old(self)@
                &&& e is Transaction || e is Table || e is Storage || e is Commit
            },
    {
        self.db.purge_all()
    }

    /// Apply one operation. The state afterwards depends on the operation
    /// and on the state before, and on nothing else: the same operation on
    /// the same state gives the same state on every node. A storage error is
    /// handed on, never swallowed, and nothing of the operation is committed
    /// with it. A deserialization error comes only where the operation has
    /// to read an entry that cannot be read, a serialization error only
    /// where it has to write a value that cannot be stored; where either is
    /// the case, the operation fails.
    pub fn apply(&mut self, op: &WriteOp) -> (r: Result<(), DatabaseError>)
        ensures
            r is Ok ==> !old(self)@.apply_blocked(op@) && final(self)@ == old(self)@.apply(op@),
            r matches Err(e) ==> {
                &&& final(self)@ == old(self)@
                &&& e is Deserialization ==> old(self)@.apply_blocked(op@)
                &&& e is Serialization ==> old(self)@.apply_refused(op@)
            },
            old(self)@.apply_blocked(op@) ==> r is Err,
            old(self)@.apply_refused(op@) ==> r is Err,
            old(self)@.consistent() && old(self)@.fits(op@) ==> final(self)@.consistent(),
            old(self)@.permalinks_exact() && old(self)@.fits(op@) ==> final(self)@.permalinks_exact(),
            old(self)@.subjects_exact() ==> final(self)@.subjects_exact(),
    {
        match op {
            WriteOp::CreateFile(file) => {
                self.db.put_file(file)?;
            },
            WriteOp::DeleteFile { id } => {
                self.db.delete_file(id.as_str())?;
            },
            WriteOp::UpdateFile { id, alt, description, metadata, name, permalink, subject_id, updated_at } => {
                self.db.update_file_at(
                    id.as_str(),
                    borrow_text(alt),
                    borrow_text(description),
                    metadata.as_option(),
                    borrow_text(name),
                    borrow_optional(permalink),
                    borrow_text(subject_id),
                    *updated_at,
                )?;
            },
        }
        Ok(())
    }

    /// Capture the whole state: every record, each once.
    pub fn snapshot(&self) -> (r: Result<FileSnapshot, DatabaseError>)
        ensures
            r matches Ok(s) ==> self@.is_full_listing(views(s.files@)) && !self@.any_unreadable(),
            r matches Err(e) ==> (e is Deserialization ==> self@.any_unreadable()),
            self@.any_unreadable() ==> r is Err,
    {
        let files = self.db.get_all_files()?;
        Ok(FileSnapshot { files })
    }

    /// Put every record of a snapshot, first to last; both indexes come
    /// about by the same path as for any put. Each put is a transaction of
    /// its own: after a failure the records before the failing one are in,
    /// and no other.
    pub fn restore(&mut self, snapshot: FileSnapshot) -> (r: Result<(), DatabaseError>)
        ensures
            r is Ok ==> final(self)@ == old(self)@.put_all(views(snapshot.files@)),
            r is Err ==> exists|n: int|
                0 <= n <= snapshot.files.len() && final(self)@ == #[trigger] old(self)@.put_all(
                    views(snapshot.files@).take(n),
                ),
    {
        let ghost start = self@;
        let ghost records = views(snapshot.files@);
        let mut i: usize = 0;
        assert(records.take(0) =~= Seq::empty());
        while i < snapshot.files.len()
            invariant
                i <= snapshot.files.len(),
                start == old(self)@,
                records == views(snapshot.files@),
                self@ == start.put_all(records.take(i as int)),
            decreases snapshot.files.len() - i,
        {
            proof {
                let t = records.take(i + 1);
                assert(t.drop_last() =~= records.take(i as int));
                assert(t.last() == snapshot.files@[i as int]@);
            }
            match self.db.put_file(&snapshot.files[i]) {
                Ok(()) => {},
                Err(e) => {
                    return Err(e);
                },
            }
            i += 1;
        }
        assert(records.take(snapshot.files.len() as int) =~= records);
        Ok(())
    }
}

} // verus!
