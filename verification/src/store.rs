//! The repository as a mathematical object: three tables, the operations on
//! them, and what it means for the two indexes to agree with the records.

use vstd::prelude::*;

use crate::codec::{list_storable, storable};
use crate::models::{FileRecordView, Patch, Timestamp};
use crate::text::text_before;

verus! {

/// What the three tables hold. A record or an id list is `None` where the
/// table has an entry whose bytes cannot be read.
#[verifier::ext_equal]
pub struct StoreView {
    /// Primary table: id to record.
    pub files: Map<Seq<char>, Option<FileRecordView>>,
    /// Permalink index: permalink to id.
    pub permalinks: Map<Seq<char>, Seq<char>>,
    /// Subject index: subject id to the ids filed under it, in the order in
    /// which they were added.
    pub subjects: Map<Seq<char>, Option<Seq<Seq<char>>>>,
}

/// The fields of a partial update, each in nested-option form: `None`
/// leaves the field alone, `Some(None)` clears it, `Some(Some(v))` sets it.
/// A permalink cannot be cleared, so it is a plain option.
pub struct Change {
    pub alt: Option<Option<Seq<char>>>,
    pub description: Option<Option<Seq<char>>>,
    pub metadata: Option<Option<Map<String, serde_json::Value>>>,
    pub name: Option<Option<Seq<char>>>,
    pub permalink: Option<Seq<char>>,
    pub subject_id: Option<Option<Seq<char>>>,
}

impl Change {
    /// The record that `r` becomes under this change at time `now`.
    pub open spec fn applied(self, r: FileRecordView, now: Timestamp) -> FileRecordView {
        FileRecordView {
            alt: Patch::of_nested(self.alt).apply(r.alt),
            description: Patch::of_nested(self.description).apply(r.description),
            metadata: Patch::of_nested(self.metadata).apply(r.metadata),
            name: Patch::of_nested(self.name).apply(r.name),
            permalink: match self.permalink {
                Some(p) => p,
                None => r.permalink,
            },
            subject_id: Patch::of_nested(self.subject_id).apply(r.subject_id),
            updated_at: now,
            ..r
        }
    }
}

/// The ids filed under `subject`; none where the key is missing or its
/// entry cannot be read.
pub open spec fn ids_under(subjects: Map<Seq<char>, Option<Seq<Seq<char>>>>, subject: Seq<char>) -> Seq<Seq<char>> {
    if subjects.contains_key(subject) && subjects[subject] is Some {
        subjects[subject]->0
    } else {
        Seq::empty()
    }
}

/// The subject index once `id` is filed under `subject`: appended to the
/// subject's list unless it is there already.
pub open spec fn attach(
    subjects: Map<Seq<char>, Option<Seq<Seq<char>>>>,
    subject: Option<Seq<char>>,
    id: Seq<char>,
) -> Map<Seq<char>, Option<Seq<Seq<char>>>> {
    match subject {
        Some(s) => {
            let ids = ids_under(subjects, s);
            if ids.contains(id) {
                subjects
            } else {
                subjects.insert(s, Some(ids.push(id)))
            }
        },
        None => subjects,
    }
}

/// `ids` without `id`.
pub open spec fn without(ids: Seq<Seq<char>>, id: Seq<char>) -> Seq<Seq<char>> {
    ids.filter(|x: Seq<char>| x != id)
}

/// The subject index once `id` is no longer filed under `subject`: taken out
/// of the subject's list, and the key dropped with its last id.
pub open spec fn detach(
    subjects: Map<Seq<char>, Option<Seq<Seq<char>>>>,
    subject: Option<Seq<char>>,
    id: Seq<char>,
) -> Map<Seq<char>, Option<Seq<Seq<char>>>> {
    match subject {
        Some(s) => {
            if subjects.contains_key(s) && subjects[s] is Some {
                let rest = without(subjects[s]->0, id);
                if rest.len() == 0 {
                    subjects.remove(s)
                } else {
                    subjects.insert(s, Some(rest))
                }
            } else {
                subjects
            }
        },
        None => subjects,
    }
}

/// Whether taking an id out from under `subject` would have to read an entry
/// that cannot be read.
pub open spec fn detach_blocked(subjects: Map<Seq<char>, Option<Seq<Seq<char>>>>, subject: Option<Seq<char>>) -> bool {
    subject matches Some(s) && subjects.contains_key(s) && subjects[s] is None
}

/// Whether filing `id` under `subject` has to write an id list that cannot
/// be stored.
pub open spec fn attach_refused(
    subjects: Map<Seq<char>, Option<Seq<Seq<char>>>>,
    subject: Option<Seq<char>>,
    id: Seq<char>,
) -> bool {
    subject is Some && !ids_under(subjects, subject->0).contains(id) && !list_storable(
        ids_under(subjects, subject->0).push(id),
    )
}

/// Whether taking `id` out from under `subject` has to write an id list
/// that cannot be stored.
pub open spec fn detach_refused(
    subjects: Map<Seq<char>, Option<Seq<Seq<char>>>>,
    subject: Option<Seq<char>>,
    id: Seq<char>,
) -> bool {
    subject is Some && subjects.contains_key(subject->0) && subjects[subject->0] is Some && without(
        subjects[subject->0]->0,
        id,
    ).len() > 0 && !list_storable(without(subjects[subject->0]->0, id))
}

impl StoreView {
    /// The store with nothing in it.
    pub open spec fn empty() -> StoreView {
        StoreView { files: Map::empty(), permalinks: Map::empty(), subjects: Map::empty() }
    }

    /// Whether the primary table has an entry for `id`, readable or not.
    pub open spec fn holds(self, id: Seq<char>) -> bool {
        self.files.contains_key(id)
    }

    /// Whether `id` has a readable record.
    pub open spec fn live(self, id: Seq<char>) -> bool {
        self.files.contains_key(id) && self.files[id] is Some
    }

    /// Whether the primary table has an entry for `id` whose bytes cannot be
    /// read as a record.
    pub open spec fn unreadable(self, id: Seq<char>) -> bool {
        self.files.contains_key(id) && self.files[id] is None
    }

    /// The record under `id`, if it has a readable one.
    pub open spec fn record(self, id: Seq<char>) -> Option<FileRecordView> {
        if self.files.contains_key(id) {
            self.files[id]
        } else {
            None
        }
    }

    /// The record that `permalink` resolves to: through the permalink index
    /// to an id, and from the id to its record.
    pub open spec fn resolve(self, permalink: Seq<char>) -> Option<FileRecordView> {
        if self.permalinks.contains_key(permalink) {
            self.record(self.permalinks[permalink])
        } else {
            None
        }
    }

    /// Whether resolving `permalink` ends at an entry that cannot be read.
    pub open spec fn resolve_blocked(self, permalink: Seq<char>) -> bool {
        self.permalinks.contains_key(permalink) && self.unreadable(self.permalinks[permalink])
    }

    /// The records filed under `subject`, in the order of its id list; ids
    /// without an entry in the primary table are passed over.
    pub open spec fn filed_under(self, subject: Seq<char>) -> Seq<FileRecordView> {
        ids_under(self.subjects, subject).filter(|id: Seq<char>| self.live(id)).map_values(
            |id: Seq<char>| self.files[id]->0,
        )
    }

    /// Whether listing the records under `subject` meets an entry that
    /// cannot be read: the id list itself, or the record of one of its ids.
    pub open spec fn listing_blocked(self, subject: Seq<char>) -> bool {
        ||| self.subjects.contains_key(subject) && self.subjects[subject] is None
        ||| exists|id: Seq<char>| ids_under(self.subjects, subject).contains(id) && #[trigger] self.unreadable(id)
    }

    /// `records` are the records of the ids `keys`, and `keys` are all ids of
    /// the primary table, each once, in ascending order.
    pub open spec fn lists(self, keys: Seq<Seq<char>>, records: Seq<FileRecordView>) -> bool {
        &&& keys.len() == records.len()
        &&& keys.no_duplicates()
        &&& forall|i: int, j: int| 0 <= i < j < keys.len() ==> text_before(keys[i], keys[j])
        &&& forall|k: Seq<char>| #[trigger] keys.contains(k) <==> self.files.contains_key(k)
        &&& forall|i: int| 0 <= i < keys.len() ==> self.files[#[trigger] keys[i]] == Some(records[i])
    }

    /// `records` holds every record of the primary table once, in ascending
    /// order of the ids that they stand under.
    pub open spec fn is_full_listing(self, records: Seq<FileRecordView>) -> bool {
        exists|keys: Seq<Seq<char>>| self.lists(keys, records)
    }

    /// Whether some entry of the primary table cannot be read.
    pub open spec fn any_unreadable(self) -> bool {
        exists|id: Seq<char>| #[trigger] self.unreadable(id)
    }

    /// Whether putting `f` writes over a live record that stands under
    /// another permalink.
    pub open spec fn leaves_permalink(self, f: FileRecordView) -> bool {
        self.live(f.id) && self.files[f.id]->0.permalink != f.permalink
    }

    /// Whether putting `f` writes over a live record that belongs to another
    /// subject, or to one where `f` belongs to none.
    pub open spec fn leaves_subject(self, f: FileRecordView) -> bool {
        self.live(f.id) && self.files[f.id]->0.subject_id != f.subject_id
    }

    /// The subject index once the record that `f` writes over has left its
    /// subject.
    pub open spec fn subjects_left(self, f: FileRecordView) -> Map<Seq<char>, Option<Seq<Seq<char>>>> {
        if self.leaves_subject(f) {
            detach(self.subjects, self.files[f.id]->0.subject_id, f.id)
        } else {
            self.subjects
        }
    }

    /// The store after `put`: the record is written under its id, its
    /// permalink points to it, and its id is filed under its subject. Where
    /// it writes over a live record, that record's permalink no longer
    /// resolves unless it is the new one, and its id leaves the list of that
    /// record's subject unless it is the new one. A permalink that another
    /// record holds is taken over: the last writer wins.
    pub open spec fn put(self, f: FileRecordView) -> StoreView {
        StoreView {
            files: self.files.insert(f.id, Some(f)),
            permalinks: (if self.leaves_permalink(f) {
                self.permalinks.remove(self.files[f.id]->0.permalink)
            } else {
                self.permalinks
            }).insert(f.permalink, f.id),
            subjects: attach(self.subjects_left(f), f.subject_id, f.id),
        }
    }

    /// Whether putting `f` has to read an entry that cannot be read: the id
    /// list of the subject that the record written over leaves.
    pub open spec fn put_blocked(self, f: FileRecordView) -> bool {
        self.leaves_subject(f) && detach_blocked(self.subjects, self.files[f.id]->0.subject_id)
    }

    /// Whether putting `f` has to write a value that cannot be stored: the
    /// record itself, the id list of the subject that the record written
    /// over leaves, or the id list of its own subject.
    pub open spec fn put_refused(self, f: FileRecordView) -> bool {
        ||| !storable(f)
        ||| self.leaves_subject(f) && detach_refused(self.subjects, self.files[f.id]->0.subject_id, f.id)
        ||| attach_refused(self.subjects_left(f), f.subject_id, f.id)
    }

    /// Whether deleting `id` has to write a value that cannot be stored: the
    /// rest of the id list of its subject.
    pub open spec fn delete_refused(self, id: Seq<char>) -> bool {
        self.live(id) && detach_refused(self.subjects, self.files[id]->0.subject_id, id)
    }

    /// Whether updating `id` at time `now` has to write a value that cannot
    /// be stored: the changed record, or the id list of the subject that it
    /// leaves or of the one that it joins.
    pub open spec fn update_refused(self, id: Seq<char>, change: Change, now: Timestamp) -> bool {
        self.live(id) && {
            let r = self.files[id]->0;
            ||| !storable(change.applied(r, now))
            ||| Self::moves_subject(r, change) && detach_refused(self.subjects, r.subject_id, id)
            ||| Self::moves_subject(r, change) && attach_refused(
                detach(self.subjects, r.subject_id, id),
                change.subject_id->0,
                id,
            )
        }
    }

    /// Whether deleting `id` has to read an entry that cannot be read.
    pub open spec fn delete_blocked(self, id: Seq<char>) -> bool {
        self.holds(id) && (self.files[id] matches Some(r) ==> detach_blocked(self.subjects, r.subject_id))
    }

    /// The store after `delete`: unchanged where `id` is unknown; else
    /// without the record, without its permalink's entry, and with its id
    /// taken out from under its subject.
    pub open spec fn delete(self, id: Seq<char>) -> StoreView {
        if self.live(id) {
            let r = self.files[id]->0;
            StoreView {
                files: self.files.remove(id),
                permalinks: self.permalinks.remove(r.permalink),
                subjects: detach(self.subjects, r.subject_id, id),
            }
        } else {
            self
        }
    }

    /// Whether `change` moves the record `r` to another subject.
    pub open spec fn moves_subject(r: FileRecordView, change: Change) -> bool {
        change.subject_id matches Some(s) && s != r.subject_id
    }

    /// Whether `change` gives the record `r` another permalink.
    pub open spec fn moves_permalink(r: FileRecordView, change: Change) -> bool {
        change.permalink matches Some(p) && p != r.permalink
    }

    /// Whether updating `id` has to read an entry that cannot be read.
    pub open spec fn update_blocked(self, id: Seq<char>, change: Change) -> bool {
        self.holds(id) && (self.files[id] matches Some(r) ==> Self::moves_subject(r, change)
            && detach_blocked(self.subjects, r.subject_id))
    }

    /// The store after `update` at time `now`: unchanged where `id` is
    /// unknown; else the record is rewritten with the change applied, a new
    /// permalink replaces the old one in the permalink index, and a new
    /// subject moves the id from the old subject's list to the new one's.
    pub open spec fn update(self, id: Seq<char>, change: Change, now: Timestamp) -> StoreView {
        if self.live(id) {
            let r = self.files[id]->0;
            StoreView {
                files: self.files.insert(id, Some(change.applied(r, now))),
                permalinks: if Self::moves_permalink(r, change) {
                    self.permalinks.remove(r.permalink).insert(change.permalink->0, id)
                } else {
                    self.permalinks
                },
                subjects: if Self::moves_subject(r, change) {
                    attach(detach(self.subjects, r.subject_id, id), change.subject_id->0, id)
                } else {
                    self.subjects
                },
            }
        } else {
            self
        }
    }
}

impl StoreView {
    /// Whether the live record of `id` belongs to `subject`.
    pub open spec fn filed(self, id: Seq<char>, subject: Seq<char>) -> bool {
        self.live(id) && self.files[id]->0.subject_id == Some(subject)
    }

    /// Every entry of the primary table can be read, and holds the record of
    /// the id that it stands under.
    pub open spec fn records_sound(self) -> bool {
        forall|id: Seq<char>| #[trigger]
            self.files.contains_key(id) ==> self.files[id] is Some && self.files[id]->0.id == id
    }

    /// The permalink index has one entry for the permalink of each live
    /// record, which points to that record's id, and no other entry.
    pub open spec fn permalinks_exact(self) -> bool {
        &&& forall|id: Seq<char>| #[trigger]
            self.live(id) ==> self.permalinks.contains_key(self.files[id]->0.permalink)
                && self.permalinks[self.files[id]->0.permalink] == id
        &&& forall|p: Seq<char>| #[trigger]
            self.permalinks.contains_key(p) ==> self.live(self.permalinks[p])
                && self.files[self.permalinks[p]]->0.permalink == p
    }

    /// Under each key of the subject index stands a readable list, not
    /// empty and without repeats, of exactly the ids whose live record
    /// belongs to that subject; and each subject of a live record has a key.
    pub open spec fn subjects_exact(self) -> bool {
        &&& forall|s: Seq<char>| #[trigger]
            self.subjects.contains_key(s) ==> {
                &&& self.subjects[s] is Some
                &&& self.subjects[s]->0.len() > 0
                &&& self.subjects[s]->0.no_duplicates()
                &&& forall|id: Seq<char>| #[trigger] self.subjects[s]->0.contains(id) <==> self.filed(id, s)
            }
        &&& forall|id: Seq<char>, s: Seq<char>| #[trigger] self.filed(id, s) ==> self.subjects.contains_key(s)
    }

    /// Both indexes are an exact function of the live records.
    pub open spec fn consistent(self) -> bool {
        &&& self.records_sound()
        &&& self.permalinks_exact()
        &&& self.subjects_exact()
    }

    /// Whether putting `f` keeps the indexes exact: no other record holds
    /// its permalink.
    pub open spec fn put_fits(self, f: FileRecordView) -> bool {
        self.permalinks.contains_key(f.permalink) ==> self.permalinks[f.permalink] == f.id
    }

    /// Whether updating `id` keeps the indexes exact: a new permalink is
    /// not held by any record.
    pub open spec fn update_fits(self, id: Seq<char>, change: Change) -> bool {
        self.live(id) && Self::moves_permalink(self.files[id]->0, change) ==> !self.permalinks.contains_key(
            change.permalink->0,
        )
    }

    /// Whether applying `op` keeps the indexes exact.
    pub open spec fn fits(self, op: WriteOpView) -> bool {
        match op {
            WriteOpView::CreateFile(f) => self.put_fits(f),
            WriteOpView::DeleteFile { id } => true,
            WriteOpView::UpdateFile { id, change, now } => self.update_fits(id, change),
        }
    }
}

/// A replicated operation, as mathematical values.
pub enum WriteOpView {
    CreateFile(FileRecordView),
    DeleteFile { id: Seq<char> },
    UpdateFile { id: Seq<char>, change: Change, now: Timestamp },
}

impl StoreView {
    /// Whether applying `op` has to read an entry that cannot be read.
    pub open spec fn apply_blocked(self, op: WriteOpView) -> bool {
        match op {
            WriteOpView::CreateFile(f) => self.put_blocked(f),
            WriteOpView::DeleteFile { id } => self.delete_blocked(id),
            WriteOpView::UpdateFile { id, change, now } => self.update_blocked(id, change),
        }
    }

    /// Whether applying `op` has to write a value that cannot be stored.
    pub open spec fn apply_refused(self, op: WriteOpView) -> bool {
        match op {
            WriteOpView::CreateFile(f) => self.put_refused(f),
            WriteOpView::DeleteFile { id } => self.delete_refused(id),
            WriteOpView::UpdateFile { id, change, now } => self.update_refused(id, change, now),
        }
    }

    /// The store after `op` is applied. It depends on the operation and on
    /// the store before, and on nothing else: an update carries its time.
    pub open spec fn apply(self, op: WriteOpView) -> StoreView {
        match op {
            WriteOpView::CreateFile(f) => self.put(f),
            WriteOpView::DeleteFile { id } => self.delete(id),
            WriteOpView::UpdateFile { id, change, now } => self.update(id, change, now),
        }
    }

    /// The store after each of `records` has been put, first to last.
    pub open spec fn put_all(self, records: Seq<FileRecordView>) -> StoreView
        decreases records.len(),
    {
        if records.len() == 0 {
            self
        } else {
            self.put_all(records.drop_last()).put(records.last())
        }
    }
}

/// The records among `all` whose file type goes by the name `file_type`;
/// all of them where no name is given.
pub open spec fn of_type(all: Seq<FileRecordView>, file_type: Option<Seq<char>>) -> Seq<FileRecordView> {
    match file_type {
        Some(name) => all.filter(|f: FileRecordView| f.file_type.wire_name() == name),
        None => all,
    }
}

} // verus!
