//! The metadata repository: every operation is one transaction over the
//! primary table and the two indexes.

use redb::Database as Redb;
use std::collections::HashMap;
use vstd::prelude::*;

use crate::codec::{decode_ids, encode_ids, texts};
use crate::engine::{
    begin_read, begin_write, begun_on, commit, committed_bytes, committed_texts, ensure_bytes_table,
    ensure_text_table, pending_bytes, pending_get, pending_insert, pending_insert_text,
    pending_keys, pending_remove, pending_remove_text, pending_text_keys, pending_texts,
    visible_bytes, visible_get, visible_get_text, visible_rows, Entries,
};
use crate::error::DatabaseError;
use crate::laws::{
    lemma_delete_keeps_indexes, lemma_delete_keeps_permalink_index,
    lemma_delete_keeps_subject_index, lemma_put_keeps_indexes, lemma_put_keeps_permalink_index,
    lemma_put_keeps_subject_index, lemma_update_keeps_indexes, lemma_update_keeps_permalink_index,
    lemma_update_keeps_subject_index,
};
use crate::models::{
    metadata_view, own_text, same_optional_text, str_view, views, FileRecord, FileRecordView,
    Timestamp,
};
use crate::store::{
    attach, attach_refused, detach, detach_blocked, detach_refused, ids_under, of_type, without,
    Change, StoreView,
};
use crate::tables::{
    lemma_file_removed, lemma_file_written, lemma_permalink_removed, lemma_permalink_written,
    lemma_subject_removed, lemma_subject_written, lemma_table_names, pending_view, store_view,
    visible_view, FILES, FILE_PERMALINKS, SUBJECT_FILES,
};
use crate::text::same_text;

verus! {

/// The repository. It owns its store: nothing else writes the three tables.
pub struct Database {
    db: Redb,
}

impl View for Database {
    type V = StoreView;

    /// What the three tables hold as of the last commit.
    closed spec fn view(&self) -> StoreView {
        store_view(committed_bytes(self.db), committed_texts(self.db))
    }
}

/// What an optional record holds.
pub open spec fn record_view(r: Option<FileRecord>) -> Option<crate::models::FileRecordView> {
    match r {
        Some(f) => Some(f@),
        None => None,
    }
}

/// Whether `id` is one of `ids`.
fn holds_id(ids: &Vec<String>, id: &str) -> (r: bool)
    ensures
        r == texts(ids@).contains(id@),
{
    let mut i: usize = 0;
    while i < ids.len()
        invariant
            i <= ids.len(),
            forall|j: int| 0 <= j < i ==> texts(ids@)[j] != id@,
        decreases ids.len() - i,
    {
        if same_text(ids[i].as_str(), id) {
            assert(texts(ids@)[i as int] == id@);
            return true;
        }
        i += 1;
    }
    false
}

/// `ids` without every occurrence of `id`, the rest in order.
fn drop_id(ids: &Vec<String>, id: &str) -> (out: Vec<String>)
    ensures
        texts(out@) == without(texts(ids@), id@),
{
    let mut out: Vec<String> = Vec::new();
    let mut i: usize = 0;
    assert(texts(ids@).take(0) =~= Seq::<Seq<char>>::empty());
    assert(texts(out@) =~= Seq::<Seq<char>>::empty());
    assert(without(Seq::<Seq<char>>::empty(), id@) =~= Seq::<Seq<char>>::empty()) by {
        reveal(Seq::filter);
    }
    while i < ids.len()
        invariant
            i <= ids.len(),
            texts(out@) == without(texts(ids@).take(i as int), id@),
        decreases ids.len() - i,
    {
        let ghost before = out@;
        proof {
            let t = texts(ids@).take(i + 1);
            assert(t.drop_last() =~= texts(ids@).take(i as int));
            assert(t.last() == ids@[i as int]@);
            reveal(Seq::filter);
        }
        if !same_text(ids[i].as_str(), id) {
            out.push(ids[i].clone());
            assert(texts(out@) =~= texts(before).push(ids@[i as int]@));
        }
        i += 1;
    }
    assert(texts(ids@).take(ids.len() as int) =~= texts(ids@));
    out
}

/// File `id` under `subject` within a write transaction.
fn attach_in(txn: &mut redb::WriteTransaction, subject: &str, id: &str) -> (r: Result<(), DatabaseError>)
    ensures
        begun_on(*final(txn)) == begun_on(*old(txn)),
        r is Ok ==> pending_view(*final(txn)) == (StoreView {
            subjects: attach(pending_view(*old(txn)).subjects, Some(subject@), id@),
            ..pending_view(*old(txn))
        }),
        r matches Err(e) ==> {
            &&& !(e is Commit) && !(e is Deserialization)
            &&& e is Serialization ==> attach_refused(pending_view(*old(txn)).subjects, Some(subject@), id@)
        },
        attach_refused(pending_view(*old(txn)).subjects, Some(subject@), id@) ==> r is Err,
{
    proof {
        lemma_table_names();
    }
    let found = pending_get(txn, SUBJECT_FILES, subject)?;
    let mut ids: Vec<String> = match found {
        Some(bytes) => match decode_ids(bytes.as_slice()) {
            Ok(ids) => ids,
            Err(_) => Vec::new(),
        },
        None => Vec::new(),
    };
    assert(texts(ids@) =~= ids_under(pending_view(*txn).subjects, subject@));
    if !holds_id(&ids, id) {
        let ghost before = ids@;
        ids.push(id.to_owned());
        assert(texts(ids@) =~= texts(before).push(id@));
        let data = encode_ids(&ids)?;
        let ghost bytes = pending_bytes(*txn);
        let ghost links = pending_texts(*txn);
        pending_insert(txn, SUBJECT_FILES, subject, data.as_slice())?;
        proof {
            lemma_subject_written(bytes, links, subject@, data@);
        }
    }
    Ok(())
}

/// Take `id` out from under `subject` within a write transaction.
fn detach_in(txn: &mut redb::WriteTransaction, subject: &str, id: &str) -> (r: Result<(), DatabaseError>)
    ensures
        begun_on(*final(txn)) == begun_on(*old(txn)),
        r is Ok ==> !detach_blocked(pending_view(*old(txn)).subjects, Some(subject@))
            && pending_view(*final(txn)) == (StoreView {
            subjects: detach(pending_view(*old(txn)).subjects, Some(subject@), id@),
            ..pending_view(*old(txn))
        }),
        r matches Err(e) ==> {
            &&& !(e is Commit)
            &&& e is Deserialization ==> detach_blocked(pending_view(*old(txn)).subjects, Some(subject@))
            &&& e is Serialization ==> detach_refused(pending_view(*old(txn)).subjects, Some(subject@), id@)
        },
        detach_blocked(pending_view(*old(txn)).subjects, Some(subject@)) ==> r is Err,
        detach_refused(pending_view(*old(txn)).subjects, Some(subject@), id@) ==> r is Err,
{
    proof {
        lemma_table_names();
    }
    let found = pending_get(txn, SUBJECT_FILES, subject)?;
    match found {
        Some(bytes) => {
            let ids = decode_ids(bytes.as_slice())?;
            let rest = drop_id(&ids, id);
            let ghost stored = pending_bytes(*txn);
            let ghost links = pending_texts(*txn);
            if rest.len() == 0 {
                pending_remove(txn, SUBJECT_FILES, subject)?;
                proof {
                    lemma_subject_removed(stored, links, subject@);
                }
            } else {
                let data = encode_ids(&rest)?;
                pending_insert(txn, SUBJECT_FILES, subject, data.as_slice())?;
                proof {
                    lemma_subject_written(stored, links, subject@, data@);
                }
            }
            Ok(())
        },
        None => Ok(()),
    }
}

/// `put` within a write transaction.
fn put_in(txn: &mut redb::WriteTransaction, file: &FileRecord) -> (r: Result<(), DatabaseError>)
    ensures
        begun_on(*final(txn)) == begun_on(*old(txn)),
        r is Ok ==> !pending_view(*old(txn)).put_blocked(file@) && pending_view(*final(txn)) == pending_view(
            *old(txn),
        ).put(file@),
        r matches Err(e) ==> {
            &&& !(e is Commit)
            &&& e is Deserialization ==> pending_view(*old(txn)).put_blocked(file@)
            &&& e is Serialization ==> pending_view(*old(txn)).put_refused(file@)
        },
        pending_view(*old(txn)).put_blocked(file@) ==> r is Err,
        pending_view(*old(txn)).put_refused(file@) ==> r is Err,
{
    proof {
        lemma_table_names();
    }
    let ghost before = pending_view(*txn);
    let data = file.encode()?;
    let prior = match pending_get(txn, FILES, file.id.as_str())? {
        Some(bytes) => match FileRecord::decode(bytes.as_slice()) {
            Ok(written) => Some(written),
            Err(_) => None,
        },
        None => None,
    };
    assert(record_view(prior) == before.record(file.id@));
    let ghost stored = pending_bytes(*txn);
    let ghost links = pending_texts(*txn);
    pending_insert(txn, FILES, file.id.as_str(), data.as_slice())?;
    proof {
        lemma_file_written(stored, links, file.id@, data@);
    }
    let mut leaves_subject = false;
    match &prior {
        Some(written) => {
            if !same_text(written.permalink.as_str(), file.permalink.as_str()) {
                let ghost stored = pending_bytes(*txn);
                let ghost links = pending_texts(*txn);
                pending_remove_text(txn, FILE_PERMALINKS, written.permalink.as_str())?;
                proof {
                    lemma_permalink_removed(stored, links, written.permalink@);
                }
            }
            leaves_subject = !same_optional_text(borrowed(&file.subject_id), &written.subject_id);
        },
        None => {},
    }
    let ghost stored = pending_bytes(*txn);
    let ghost links = pending_texts(*txn);
    pending_insert_text(txn, FILE_PERMALINKS, file.permalink.as_str(), file.id.as_str())?;
    proof {
        lemma_permalink_written(stored, links, file.permalink@, file.id@);
    }
    assert(leaves_subject == before.leaves_subject(file@));
    if leaves_subject {
        match &prior {
            Some(written) => match &written.subject_id {
                Some(subject) => {
                    detach_in(txn, subject.as_str(), file.id.as_str())?;
                },
                None => {},
            },
            None => {},
        }
    }
    assert(pending_view(*txn).subjects == before.subjects_left(file@));
    match &file.subject_id {
        Some(subject) => attach_in(txn, subject.as_str(), file.id.as_str()),
        None => Ok(()),
    }
}

/// The borrowed form of an optional text.
fn borrowed(t: &Option<String>) -> (r: Option<&str>)
    ensures
        str_view(r) == crate::models::text_view(*t),
{
    match t {
        Some(s) => Some(s.as_str()),
        None => None,
    }
}

/// `delete` within a write transaction.
fn delete_in(txn: &mut redb::WriteTransaction, id: &str) -> (r: Result<bool, DatabaseError>)
    ensures
        begun_on(*final(txn)) == begun_on(*old(txn)),
        r matches Ok(deleted) ==> {
            &&& !pending_view(*old(txn)).delete_blocked(id@)
            &&& deleted == pending_view(*old(txn)).holds(id@)
            &&& pending_view(*final(txn)) == pending_view(*old(txn)).delete(id@)
        },
        r matches Err(e) ==> {
            &&& !(e is Commit)
            &&& e is Deserialization ==> pending_view(*old(txn)).delete_blocked(id@)
            &&& e is Serialization ==> pending_view(*old(txn)).delete_refused(id@)
        },
        pending_view(*old(txn)).delete_blocked(id@) ==> r is Err,
        pending_view(*old(txn)).delete_refused(id@) ==> r is Err,
{
    proof {
        lemma_table_names();
    }
    match pending_get(txn, FILES, id)? {
        Some(bytes) => {
            let file = FileRecord::decode(bytes.as_slice())?;
            let ghost stored = pending_bytes(*txn);
            let ghost links = pending_texts(*txn);
            pending_remove(txn, FILES, id)?;
            proof {
                lemma_file_removed(stored, links, id@);
            }
            let ghost stored = pending_bytes(*txn);
            pending_remove_text(txn, FILE_PERMALINKS, file.permalink.as_str())?;
            proof {
                lemma_permalink_removed(stored, links, file.permalink@);
            }
            match &file.subject_id {
                Some(subject) => {
                    detach_in(txn, subject.as_str(), id)?;
                },
                None => {},
            }
            Ok(true)
        },
        None => Ok(false),
    }
}

/// The entries of an optional borrowed metadata map.
pub open spec fn map_view(m: Option<&HashMap<String, serde_json::Value>>) -> Option<
    Map<String, serde_json::Value>,
> {
    match m {
        Some(h) => Some(h@),
        None => None,
    }
}

/// A patch of a text field, as mathematical values.
pub open spec fn text_patch(p: Option<Option<&str>>) -> Option<Option<Seq<char>>> {
    match p {
        Some(t) => Some(str_view(t)),
        None => None,
    }
}

/// A patch of the metadata field, as mathematical values.
pub open spec fn metadata_patch(p: Option<Option<&HashMap<String, serde_json::Value>>>) -> Option<
    Option<Map<String, serde_json::Value>>,
> {
    match p {
        Some(m) => Some(map_view(m)),
        None => None,
    }
}

/// The change that the arguments of an update stand for.
pub open spec fn change_of(
    alt: Option<Option<&str>>,
    description: Option<Option<&str>>,
    metadata: Option<Option<&HashMap<String, serde_json::Value>>>,
    name: Option<Option<&str>>,
    permalink: Option<&str>,
    subject_id: Option<Option<&str>>,
) -> Change {
    Change {
        alt: text_patch(alt),
        description: text_patch(description),
        metadata: metadata_patch(metadata),
        name: text_patch(name),
        permalink: str_view(permalink),
        subject_id: text_patch(subject_id),
    }
}

/// An owned copy of an optional borrowed metadata map.
fn own_metadata(m: Option<&HashMap<String, serde_json::Value>>) -> (r: Option<
    HashMap<String, serde_json::Value>,
>)
    ensures
        metadata_view(r) == map_view(m),
{
    match m {
        Some(h) => Some(h.clone()),
        None => None,
    }
}

/// `update` within a write transaction, at time `now`.
fn update_in(
    txn: &mut redb::WriteTransaction,
    id: &str,
    alt: Option<Option<&str>>,
    description: Option<Option<&str>>,
    metadata: Option<Option<&HashMap<String, serde_json::Value>>>,
    name: Option<Option<&str>>,
    permalink: Option<&str>,
    subject_id: Option<Option<&str>>,
    now: Timestamp,
) -> (r: Result<bool, DatabaseError>)
    ensures
        begun_on(*final(txn)) == begun_on(*old(txn)),
        r matches Ok(updated) ==> {
            let change = change_of(alt, description, metadata, name, permalink, subject_id);
            &&& !pending_view(*old(txn)).update_blocked(id@, change)
            &&& updated == pending_view(*old(txn)).holds(id@)
            &&& pending_view(*final(txn)) == pending_view(*old(txn)).update(id@, change, now)
        },
        r matches Err(e) ==> {
            &&& !(e is Commit)
            &&& e is Deserialization ==> pending_view(*old(txn)).update_blocked(
                id@,
                change_of(alt, description, metadata, name, permalink, subject_id),
            )
            &&& e is Serialization ==> pending_view(*old(txn)).update_refused(
                id@,
                change_of(alt, description, metadata, name, permalink, subject_id),
                now,
            )
        },
        pending_view(*old(txn)).update_refused(
            id@,
            change_of(alt, description, metadata, name, permalink, subject_id),
            now,
        ) ==> r is Err,
        pending_view(*old(txn)).update_blocked(
            id@,
            change_of(alt, description, metadata, name, permalink, subject_id),
        ) ==> r is Err,
{
    proof {
        lemma_table_names();
    }
    let ghost before = pending_view(*txn);
    let ghost change = change_of(alt, description, metadata, name, permalink, subject_id);
    match pending_get(txn, FILES, id)? {
        Some(bytes) => {
            let mut file = FileRecord::decode(bytes.as_slice())?;
            let ghost loaded = file@;
            if let Some(a) = alt {
                file.alt = own_text(a);
            }
            if let Some(d) = description {
                file.description = own_text(d);
            }
            if let Some(m) = metadata {
                file.metadata = own_metadata(m);
            }
            if let Some(n) = name {
                file.name = own_text(n);
            }
            if let Some(new_permalink) = permalink {
                if !same_text(new_permalink, file.permalink.as_str()) {
                    let ghost stored = pending_bytes(*txn);
                    let ghost links = pending_texts(*txn);
                    pending_remove_text(txn, FILE_PERMALINKS, file.permalink.as_str())?;
                    proof {
                        lemma_permalink_removed(stored, links, file.permalink@);
                    }
                    let ghost links = pending_texts(*txn);
                    pending_insert_text(txn, FILE_PERMALINKS, new_permalink, id)?;
                    proof {
                        lemma_permalink_written(stored, links, new_permalink@, id@);
                    }
                    file.permalink = new_permalink.to_owned();
                }
            }
            if let Some(new_subject) = subject_id {
                if !same_optional_text(new_subject, &file.subject_id) {
                    match &file.subject_id {
                        Some(old_subject) => {
                            detach_in(txn, old_subject.as_str(), id)?;
                        },
                        None => {},
                    }
                    match new_subject {
                        Some(subject) => {
                            attach_in(txn, subject, id)?;
                        },
                        None => {},
                    }
                    file.subject_id = own_text(new_subject);
                }
            }
            file.updated_at = now;
            assert(file@ == change.applied(loaded, now));
            let data = file.encode()?;
            let ghost stored = pending_bytes(*txn);
            let ghost links = pending_texts(*txn);
            pending_insert(txn, FILES, id, data.as_slice())?;
            proof {
                lemma_file_written(stored, links, id@, data@);
            }
            Ok(true)
        },
        None => Ok(false),
    }
}

/// What a purge removed.
#[derive(Debug)]
pub struct PurgeStats {
    /// The number of entries that the primary table held.
    pub files: u64,
}

impl Default for PurgeStats {
    fn default() -> (r: PurgeStats)
        ensures
            r.files == 0,
    {
        PurgeStats { files: 0 }
    }
}

/// The keys of `table` in `entries`.
pub open spec fn keys_of<V>(entries: Entries<V>, table: Seq<char>) -> Set<Seq<char>> {
    Set::new(|k: Seq<char>| entries.contains_key((table, k)))
}

/// `entries` without the entries of `table`.
pub open spec fn cleared<V>(entries: Entries<V>, table: Seq<char>) -> Entries<V> {
    entries.remove_keys(Set::new(|e: (Seq<char>, Seq<char>)| e.0 == table))
}

/// One more element of a sequence is taken: what the prefix holds grows by
/// that element.
proof fn lemma_take_one_more<A>(s: Seq<A>, i: int)
    requires
        0 <= i < s.len(),
    ensures
        forall|x: A| #[trigger] s.take(i + 1).contains(x) <==> s.take(i).contains(x) || x == s[i],
{
    assert forall|x: A| #[trigger] s.take(i + 1).contains(x) <==> s.take(i).contains(x) || x == s[i] by {
        let short = s.take(i);
        let long = s.take(i + 1);
        if short.contains(x) {
            let j = choose|j: int| 0 <= j < short.len() && short[j] == x;
            assert(long[j] == x);
        }
        if x == s[i] {
            assert(long[i] == x);
        }
        if long.contains(x) {
            let j = choose|j: int| 0 <= j < long.len() && long[j] == x;
            if j < i {
                assert(short[j] == x);
            }
        }
    }
}

/// Remove every entry of a byte-valued table; the answer is their number.
fn clear_table(txn: &mut redb::WriteTransaction, table: &str) -> (r: Result<u64, DatabaseError>)
    requires
        table@.len() > 0,
    ensures
        begun_on(*final(txn)) == begun_on(*old(txn)),
        r matches Ok(n) ==> {
            &&& pending_bytes(*final(txn)) == cleared(pending_bytes(*old(txn)), table@)
            &&& pending_texts(*final(txn)) == pending_texts(*old(txn))
            &&& keys_of(pending_bytes(*old(txn)), table@).finite()
            &&& n == keys_of(pending_bytes(*old(txn)), table@).len()
        },
        r matches Err(e) ==> e is Table || e is Storage,
{
    let keys = pending_keys(txn, table)?;
    let ghost start = pending_bytes(*txn);
    let ghost names = texts(keys@);
    proof {
        names.unique_seq_to_set();
        assert(names.to_set() =~= keys_of(start, table@));
    }
    let mut n: u64 = 0;
    let mut i: usize = 0;
    assert(start.remove_keys(Set::new(|e: (Seq<char>, Seq<char>)| e.0 == table@ && names.take(0).contains(e.1)))
        =~= start);
    while i < keys.len()
        invariant
            i <= keys.len(),
            n == i,
            table@.len() > 0,
            names == texts(keys@),
            begun_on(*txn) == begun_on(*old(txn)),
            pending_texts(*txn) == pending_texts(*old(txn)),
            pending_bytes(*txn) == start.remove_keys(
                Set::new(|e: (Seq<char>, Seq<char>)| e.0 == table@ && names.take(i as int).contains(e.1)),
            ),
        decreases keys.len() - i,
    {
        let ghost held = pending_bytes(*txn);
        pending_remove(txn, table, keys[i].as_str())?;
        proof {
            let k = names[i as int];
            lemma_take_one_more(names, i as int);
            assert(held.remove((table@, k)) =~= start.remove_keys(
                Set::new(|e: (Seq<char>, Seq<char>)| e.0 == table@ && names.take(i + 1).contains(e.1)),
            ));
        }
        n += 1;
        i += 1;
    }
    proof {
        assert(names.take(keys.len() as int) =~= names);
        assert(pending_bytes(*txn) =~= cleared(start, table@));
    }
    Ok(n)
}

/// Remove every entry of a text-valued table.
fn clear_text_table(txn: &mut redb::WriteTransaction, table: &str) -> (r: Result<(), DatabaseError>)
    requires
        table@.len() > 0,
    ensures
        begun_on(*final(txn)) == begun_on(*old(txn)),
        r is Ok ==> {
            &&& pending_texts(*final(txn)) == cleared(pending_texts(*old(txn)), table@)
            &&& pending_bytes(*final(txn)) == pending_bytes(*old(txn))
        },
        r matches Err(e) ==> e is Table || e is Storage,
{
    let keys = pending_text_keys(txn, table)?;
    let ghost start = pending_texts(*txn);
    let ghost names = texts(keys@);
    let mut i: usize = 0;
    assert(start.remove_keys(Set::new(|e: (Seq<char>, Seq<char>)| e.0 == table@ && names.take(0).contains(e.1)))
        =~= start);
    while i < keys.len()
        invariant
            i <= keys.len(),
            table@.len() > 0,
            names == texts(keys@),
            begun_on(*txn) == begun_on(*old(txn)),
            pending_bytes(*txn) == pending_bytes(*old(txn)),
            pending_texts(*txn) == start.remove_keys(
                Set::new(|e: (Seq<char>, Seq<char>)| e.0 == table@ && names.take(i as int).contains(e.1)),
            ),
        decreases keys.len() - i,
    {
        let ghost held = pending_texts(*txn);
        pending_remove_text(txn, table, keys[i].as_str())?;
        proof {
            let k = names[i as int];
            lemma_take_one_more(names, i as int);
            assert(held.remove((table@, k)) =~= start.remove_keys(
                Set::new(|e: (Seq<char>, Seq<char>)| e.0 == table@ && names.take(i + 1).contains(e.1)),
            ));
        }
        i += 1;
    }
    proof {
        assert(names.take(keys.len() as int) =~= names);
        assert(pending_texts(*txn) =~= cleared(start, table@));
    }
    Ok(())
}

/// The three tables without their entries stand for the empty store.
proof fn lemma_cleared_is_empty(bytes: Entries<Seq<u8>>, links: Entries<Seq<char>>)
    ensures
        store_view(
            cleared(cleared(bytes, FILES@), SUBJECT_FILES@),
            cleared(links, FILE_PERMALINKS@),
        ) == StoreView::empty(),
        store_view(bytes, links).files.dom() == keys_of(bytes, FILES@),
{
    let v = store_view(cleared(cleared(bytes, FILES@), SUBJECT_FILES@), cleared(links, FILE_PERMALINKS@));
    assert(v.files =~= Map::empty());
    assert(v.permalinks =~= Map::empty());
    assert(v.subjects =~= Map::empty());
    assert(store_view(bytes, links).files.dom() =~= keys_of(bytes, FILES@));
}

/// Load the records of `ids` that have an entry in the primary table.
fn load_records(txn: &redb::ReadTransaction, ids: &Vec<String>) -> (r: Result<Vec<FileRecord>, DatabaseError>)
    ensures
        r matches Ok(files) ==> {
            &&& views(files@) == texts(ids@).filter(|id: Seq<char>| visible_view(*txn).live(id)).map_values(
                |id: Seq<char>| visible_view(*txn).files[id]->0,
            )
            &&& forall|id: Seq<char>| texts(ids@).contains(id) ==> !visible_view(*txn).unreadable(id)
        },
        r matches Err(e) ==> (e is Deserialization ==> exists|id: Seq<char>|
            texts(ids@).contains(id) && #[trigger] visible_view(*txn).unreadable(id)),
        (exists|id: Seq<char>| texts(ids@).contains(id) && #[trigger] visible_view(*txn).unreadable(id)) ==> r is Err,
{
    proof {
        lemma_table_names();
    }
    let ghost store = visible_view(*txn);
    let ghost names = texts(ids@);
    let ghost is_live = |id: Seq<char>| store.live(id);
    let ghost pick = |id: Seq<char>| store.files[id]->0;
    let mut files: Vec<FileRecord> = Vec::new();
    let mut i: usize = 0;
    proof {
        reveal(Seq::filter);
        assert(names.take(0) =~= Seq::<Seq<char>>::empty());
        assert(views(files@) =~= names.take(0).filter(is_live).map_values(pick));
    }
    while i < ids.len()
        invariant
            i <= ids.len(),
            store == visible_view(*txn),
            names == texts(ids@),
            is_live == |id: Seq<char>| store.live(id),
            pick == |id: Seq<char>| store.files[id]->0,
            FILES@.len() > 0,
            views(files@) == names.take(i as int).filter(is_live).map_values(pick),
            forall|j: int| 0 <= j < i ==> !store.unreadable(names[j]),
        decreases ids.len() - i,
    {
        let ghost before = files@;
        proof {
            let t = names.take(i + 1);
            assert(t.drop_last() =~= names.take(i as int));
            assert(t.last() == names[i as int]);
            reveal(Seq::filter);
        }
        match visible_get(txn, FILES, ids[i].as_str()) {
            Ok(Some(bytes)) => {
                match FileRecord::decode(bytes.as_slice()) {
                    Ok(file) => {
                        files.push(file);
                        assert(views(files@) =~= views(before).push(file@));
                        assert(names.take(i + 1).filter(is_live).map_values(pick) =~= names.take(
                            i as int,
                        ).filter(is_live).map_values(pick).push(pick(names[i as int])));
                    },
                    Err(e) => {
                        assert(store.unreadable(names[i as int]));
                        assert(names.contains(names[i as int]));
                        return Err(e);
                    },
                }
            },
            Ok(None) => {},
            Err(e) => {
                return Err(e);
            },
        }
        i += 1;
    }
    proof {
        assert(names.take(ids.len() as int) =~= names);
    }
    Ok(files)
}

/// Keep the records whose file type goes by the name `file_type`.
fn keep_type(all: Vec<FileRecord>, file_type: &str) -> (out: Vec<FileRecord>)
    ensures
        views(out@) == of_type(views(all@), Some(file_type@)),
{
    let ghost keep = |f: FileRecordView| f.file_type.wire_name() == file_type@;
    let ghost source = views(all@);
    let mut all = all;
    let mut out: Vec<FileRecord> = Vec::new();
    let n = all.len();
    let mut rest: Vec<FileRecord> = Vec::new();
    let mut i: usize = 0;
    proof {
        reveal(Seq::filter);
        assert(source.take(0) =~= Seq::<FileRecordView>::empty());
        assert(views(out@) =~= source.take(0).filter(keep));
    }
    while i < n
        invariant
            i <= n,
            n == all.len(),
            source == views(all@),
            keep == |f: FileRecordView| f.file_type.wire_name() == file_type@,
            views(out@) == source.take(i as int).filter(keep),
        decreases n - i,
    {
        let ghost before = out@;
        proof {
            let t = source.take(i + 1);
            assert(t.drop_last() =~= source.take(i as int));
            assert(t.last() == all@[i as int]@);
            reveal(Seq::filter);
        }
        if same_text(all[i].file_type.as_str(), file_type) {
            let copy = all[i].duplicate();
            out.push(copy);
            assert(views(out@) =~= views(before).push(all@[i as int]@));
        }
        i += 1;
    }
    proof {
        assert(source.take(n as int) =~= source);
    }
    out
}

impl Database {
    /// Take charge of an opened store and make sure that the three tables
    /// exist. What the store already holds stays as it is. Opening fails
    /// only where the transaction cannot begin, a table cannot be opened, or
    /// the commit fails.
    pub fn open(db: Redb) -> (r: Result<Database, DatabaseError>)
        ensures
            r matches Ok(d) ==> d@ == store_view(committed_bytes(db), committed_texts(db)),
            r matches Err(e) ==> e is Transaction || e is Table || e is Commit,
    {
        proof {
            lemma_table_names();
        }
        let mut db = db;
        let mut txn = begin_write(&db)?;
        ensure_bytes_table(&mut txn, FILES)?;
        ensure_text_table(&mut txn, FILE_PERMALINKS)?;
        ensure_bytes_table(&mut txn, SUBJECT_FILES)?;
        commit(txn, &mut db)?;
        Ok(Database { db })
    }

    /// The store underneath, for readers that share it. Whoever writes the
    /// three tables through it voids what this repository states.
    pub fn inner(&self) -> (r: &Redb)
        ensures
            store_view(committed_bytes(*r), committed_texts(*r)) == self@,
    {
        &self.db
    }

    /// Store a file record and update the permalink and subject indexes.
    /// Where the id already has a record, that record's permalink entry and
    /// its place in its subject's list go with it, unless the new record
    /// has the same. Collisions are not rejected here: a permalink that
    /// another record holds is taken over, the last writer wins, and the
    /// other record is then found by its id alone; the caller looks the
    /// permalink up before. An empty id or permalink is a key like any
    /// other: such a record is stored. A put fails where it has to read an
    /// id list that cannot be read or to write a value that cannot be
    /// stored, and with a deserialization or serialization error only
    /// there.
    pub fn put_file(&mut self, file: &FileRecord) -> (r: Result<(), DatabaseError>)
        ensures
            r is Ok ==> !old(self)@.put_blocked(file@) && final(self)@ == old(self)@.put(file@),
            r matches Err(e) ==> {
                &&& final(self)@ == old(self)@
                &&& e is Deserialization ==> old(self)@.put_blocked(file@)
                &&& e is Serialization ==> old(self)@.put_refused(file@)
            },
            old(self)@.put_blocked(file@) ==> r is Err,
            old(self)@.put_refused(file@) ==> r is Err,
            old(self)@.consistent() && old(self)@.put_fits(file@) ==> final(self)@.consistent(),
            old(self)@.permalinks_exact() && old(self)@.put_fits(file@) ==> final(self)@.permalinks_exact(),
            old(self)@.subjects_exact() ==> final(self)@.subjects_exact(),
    {
        proof {
            if self@.permalinks_exact() && self@.put_fits(file@) {
                lemma_put_keeps_permalink_index(self@, file@);
            }
            if self@.consistent() && self@.put_fits(file@) {
                lemma_put_keeps_indexes(self@, file@);
            }
            if self@.subjects_exact() {
                lemma_put_keeps_subject_index(self@, file@);
            }
        }
        let mut txn = begin_write(&self.db)?;
        put_in(&mut txn, file)?;
        commit(txn, &mut self.db)
    }

    /// Get a file by its id.
    pub fn get_file(&self, id: &str) -> (r: Result<Option<FileRecord>, DatabaseError>)
        ensures
            r matches Ok(found) ==> match found {
                Some(f) => self@.holds(id@) && self@.files[id@] == Some(f@),
                None => !self@.holds(id@),
            },
            r matches Err(e) ==> (e is Deserialization ==> self@.holds(id@) && !self@.live(id@)),
            self@.holds(id@) && !self@.live(id@) ==> r is Err,
    {
        proof {
            lemma_table_names();
        }
        let txn = begin_read(&self.db)?;
        match visible_get(&txn, FILES, id)? {
            Some(bytes) => {
                let file = FileRecord::decode(bytes.as_slice())?;
                Ok(Some(file))
            },
            None => Ok(None),
        }
    }

    /// Get a file by its permalink: permalink to id, id to record. A
    /// permalink whose id has no record resolves to nothing.
    pub fn get_file_by_permalink(&self, permalink: &str) -> (r: Result<Option<FileRecord>, DatabaseError>)
        ensures
            r matches Ok(found) ==> record_view(found) == self@.resolve(permalink@) && !self@.resolve_blocked(
                permalink@,
            ),
            r matches Err(e) ==> (e is Deserialization ==> self@.resolve_blocked(permalink@)),
            self@.resolve_blocked(permalink@) ==> r is Err,
    {
        proof {
            lemma_table_names();
        }
        let txn = begin_read(&self.db)?;
        let id = match visible_get_text(&txn, FILE_PERMALINKS, permalink)? {
            Some(id) => id,
            None => {
                return Ok(None);
            },
        };
        match visible_get(&txn, FILES, id.as_str())? {
            Some(bytes) => {
                let file = FileRecord::decode(bytes.as_slice())?;
                Ok(Some(file))
            },
            None => Ok(None),
        }
    }

    /// Delete a file by its id and clean up the permalink and subject
    /// indexes. An unknown id is no failure: nothing changes and the answer
    /// is `false`.
    pub fn delete_file(&mut self, id: &str) -> (r: Result<bool, DatabaseError>)
        ensures
            r matches Ok(deleted) ==> {
                &&& !old(self)@.delete_blocked(id@)
                &&& deleted == old(self)@.holds(id@)
                &&& final(self)@ == old(self)@.delete(id@)
            },
            r matches Err(e) ==> {
                &&& final(self)@ == old(self)@
                &&& e is Deserialization ==> old(self)@.delete_blocked(id@)
                &&& e is Serialization ==> old(self)@.delete_refused(id@)
            },
            old(self)@.delete_blocked(id@) ==> r is Err,
            old(self)@.delete_refused(id@) ==> r is Err,
            old(self)@.consistent() ==> final(self)@.consistent(),
            old(self)@.permalinks_exact() ==> final(self)@.permalinks_exact(),
            old(self)@.subjects_exact() ==> final(self)@.subjects_exact(),
    {
        proof {
            if self@.permalinks_exact() {
                lemma_delete_keeps_permalink_index(self@, id@);
            }
            if self@.consistent() {
                lemma_delete_keeps_indexes(self@, id@);
            }
            if self@.subjects_exact() {
                lemma_delete_keeps_subject_index(self@, id@);
            }
        }
        let mut txn = begin_write(&self.db)?;
        let deleted = delete_in(&mut txn, id)?;
        commit(txn, &mut self.db)?;
        Ok(deleted)
    }

    /// Update a file's mutable fields, with `now` as the time of the update.
    /// An unknown id is no failure: nothing changes and the answer is
    /// `false`. The update fails with a deserialization error only where
    /// it has to read an entry that cannot be read, and with a serialization
    /// error only where it has to write a value that cannot be stored; where
    /// either is the case, it fails.
    pub fn update_file_at(
        &mut self,
        id: &str,
        alt: Option<Option<&str>>,
        description: Option<Option<&str>>,
        metadata: Option<Option<&HashMap<String, serde_json::Value>>>,
        name: Option<Option<&str>>,
        permalink: Option<&str>,
        subject_id: Option<Option<&str>>,
        now: Timestamp,
    ) -> (r: Result<bool, DatabaseError>)
        ensures
            r matches Ok(updated) ==> {
                let change = change_of(alt, description, metadata, name, permalink, subject_id);
                &&& !old(self)@.update_blocked(id@, change)
                &&& updated == old(self)@.holds(id@)
                &&& final(self)@ == old(self)@.update(id@, change, now)
            },
            r matches Err(e) ==> {
                &&& final(self)@ == old(self)@
                &&& e is Deserialization ==> old(self)@.update_blocked(
                    id@,
                    change_of(alt, description, metadata, name, permalink, subject_id),
                )
                &&& e is Serialization ==> old(self)@.update_refused(
                    id@,
                    change_of(alt, description, metadata, name, permalink, subject_id),
                    now,
                )
            },
            old(self)@.update_refused(
                id@,
                change_of(alt, description, metadata, name, permalink, subject_id),
                now,
            ) ==> r is Err,
            old(self)@.update_blocked(
                id@,
                change_of(alt, description, metadata, name, permalink, subject_id),
            ) ==> r is Err,
            old(self)@.consistent() && old(self)@.update_fits(
                id@,
                change_of(alt, description, metadata, name, permalink, subject_id),
            ) ==> final(self)@.consistent(),
            old(self)@.permalinks_exact() && old(self)@.update_fits(
                id@,
                change_of(alt, description, metadata, name, permalink, subject_id),
            ) ==> final(self)@.permalinks_exact(),
            old(self)@.subjects_exact() ==> final(self)@.subjects_exact(),
    {
        proof {
            let change = change_of(alt, description, metadata, name, permalink, subject_id);
            if self@.permalinks_exact() && self@.update_fits(id@, change) {
                lemma_update_keeps_permalink_index(self@, id@, change, now);
            }
            if self@.consistent() && self@.update_fits(id@, change) {
                lemma_update_keeps_indexes(self@, id@, change, now);
            }
            if self@.subjects_exact() {
                lemma_update_keeps_subject_index(self@, id@, change, now);
            }
        }
        let mut txn = begin_write(&self.db)?;
        let updated = update_in(&mut txn, id, alt, description, metadata, name, permalink, subject_id, now)?;
        commit(txn, &mut self.db)?;
        Ok(updated)
    }

    /// Update a file's mutable fields. The record's time of update becomes
    /// the current time.
    pub fn update_file(
        &mut self,
        id: &str,
        alt: Option<Option<&str>>,
        description: Option<Option<&str>>,
        metadata: Option<Option<&HashMap<String, serde_json::Value>>>,
        name: Option<Option<&str>>,
        permalink: Option<&str>,
        subject_id: Option<Option<&str>>,
    ) -> (r: Result<bool, DatabaseError>)
        ensures
            r matches Ok(updated) ==> {
                let change = change_of(alt, description, metadata, name, permalink, subject_id);
                &&& !old(self)@.update_blocked(id@, change)
                &&& updated == old(self)@.holds(id@)
                &&& exists|now: Timestamp| final(self)@ == #[trigger] old(self)@.update(id@, change, now)
            },
            r matches Err(e) ==> {
                &&& final(self)@ == old(self)@
                &&& e is Deserialization ==> old(self)@.update_blocked(
                    id@,
                    change_of(alt, description, metadata, name, permalink, subject_id),
                )
                &&& e is Serialization ==> exists|now: Timestamp| #[trigger]
                    old(self)@.update_refused(
                        id@,
                        change_of(alt, description, metadata, name, permalink, subject_id),
                        now,
                    )
            },
            old(self)@.update_blocked(
                id@,
                change_of(alt, description, metadata, name, permalink, subject_id),
            ) ==> r is Err,
            old(self)@.consistent() && old(self)@.update_fits(
                id@,
                change_of(alt, description, metadata, name, permalink, subject_id),
            ) ==> final(self)@.consistent(),
            old(self)@.permalinks_exact() && old(self)@.update_fits(
                id@,
                change_of(alt, description, metadata, name, permalink, subject_id),
            ) ==> final(self)@.permalinks_exact(),
            old(self)@.subjects_exact() ==> final(self)@.subjects_exact(),
    {
        let now = Timestamp::now();
        self.update_file_at(id, alt, description, metadata, name, permalink, subject_id, now)
    }

    /// Get all files for a subject, in the order in which they were filed.
    /// Ids without a record are passed over.
    pub fn get_files_by_subject(&self, subject_id: &str) -> (r: Result<Vec<FileRecord>, DatabaseError>)
        ensures
            r matches Ok(files) ==> views(files@) == self@.filed_under(subject_id@) && !self@.listing_blocked(
                subject_id@,
            ),
            r matches Err(e) ==> (e is Deserialization ==> self@.listing_blocked(subject_id@)),
            self@.listing_blocked(subject_id@) ==> r is Err,
    {
        proof {
            lemma_table_names();
        }
        let txn = begin_read(&self.db)?;
        let ids = match visible_get(&txn, SUBJECT_FILES, subject_id)? {
            Some(bytes) => decode_ids(bytes.as_slice())?,
            None => {
                proof {
                    reveal(Seq::filter);
                    assert(self@.filed_under(subject_id@) =~= Seq::<FileRecordView>::empty());
                }
                return Ok(Vec::new());
            },
        };
        load_records(&txn, &ids)
    }

    /// Get all files, each once, in ascending order of their ids.
    pub fn get_all_files(&self) -> (r: Result<Vec<FileRecord>, DatabaseError>)
        ensures
            r matches Ok(files) ==> self@.is_full_listing(views(files@)) && !self@.any_unreadable(),
            r matches Err(e) ==> (e is Deserialization ==> self@.any_unreadable()),
            self@.any_unreadable() ==> r is Err,
    {
        proof {
            lemma_table_names();
        }
        let txn = begin_read(&self.db)?;
        let rows = visible_rows(&txn, FILES)?;
        let ghost store = self@;
        let ghost keys = rows@.map_values(|row: (String, Vec<u8>)| row.0@);
        let mut files: Vec<FileRecord> = Vec::new();
        let mut i: usize = 0;
        while i < rows.len()
            invariant
                i <= rows.len(),
                store == self@,
                store == visible_view(txn),
                crate::engine::lists_rows(rows@, visible_bytes(txn), FILES@),
                keys == rows@.map_values(|row: (String, Vec<u8>)| row.0@),
                files.len() == i,
                forall|j: int| 0 <= j < i ==> store.files[keys[j]] == Some(#[trigger] files@[j]@),
            decreases rows.len() - i,
        {
            assert(crate::engine::is_entry(Some(rows@[i as int].1@), visible_bytes(txn), FILES@, rows@[i as int].0@));
            match FileRecord::decode(rows[i].1.as_slice()) {
                Ok(file) => {
                    files.push(file);
                },
                Err(e) => {
                    assert(store.unreadable(keys[i as int]));
                    return Err(e);
                },
            }
            i += 1;
        }
        proof {
            let records = views(files@);
            assert forall|k: Seq<char>| #[trigger] keys.contains(k) <==> store.files.contains_key(k) by {
                if keys.contains(k) {
                    let j = choose|j: int| 0 <= j < keys.len() && keys[j] == k;
                    assert(crate::engine::is_entry(Some(rows@[j].1@), visible_bytes(txn), FILES@, rows@[j].0@));
                }
                if store.files.contains_key(k) {
                    assert(visible_bytes(txn).contains_key((FILES@, k)));
                    let j = choose|j: int| 0 <= j < rows.len() && (#[trigger] rows@[j]).0@ == k;
                    assert(keys[j] == k);
                }
            }
            assert(keys.no_duplicates()) by {
                assert forall|i: int, j: int| 0 <= i < keys.len() && 0 <= j < keys.len() && i != j implies keys[i]
                    != keys[j] by {
                    crate::text::lemma_text_before_differs(keys[i], keys[j]);
                    crate::text::lemma_text_before_differs(keys[j], keys[i]);
                    if i < j {
                        assert(crate::text::text_before(rows@[i].0@, rows@[j].0@));
                    } else {
                        assert(crate::text::text_before(rows@[j].0@, rows@[i].0@));
                    }
                }
            }
            assert(store.lists(keys, records));
            assert forall|id: Seq<char>| !#[trigger] store.unreadable(id) by {
                if store.files.contains_key(id) {
                    assert(keys.contains(id));
                    let j = choose|j: int| 0 <= j < keys.len() && keys[j] == id;
                    assert(store.files[keys[j]] == Some(files@[j]@));
                }
            }
        }
        Ok(files)
    }

    /// List files, optionally only those of one subject and only those of
    /// one file type. The subject is looked up in the subject index; the
    /// file type is matched by its stored name. The listing fails where it
    /// meets an entry that cannot be read, and with a deserialization error
    /// only there.
    pub fn list_files(&self, file_type: Option<&str>, subject_id: Option<&str>) -> (r: Result<
        Vec<FileRecord>,
        DatabaseError,
    >)
        ensures
            r matches Ok(files) ==> match subject_id {
                Some(s) => views(files@) == of_type(self@.filed_under(s@), str_view(file_type))
                    && !self@.listing_blocked(s@),
                None => !self@.any_unreadable() && exists|all: Seq<FileRecordView>| #[trigger]
                    self@.is_full_listing(all) && views(files@) == of_type(all, str_view(file_type)),
            },
            r matches Err(e) ==> (e is Deserialization ==> match subject_id {
                Some(s) => self@.listing_blocked(s@),
                None => self@.any_unreadable(),
            }),
            match subject_id {
                Some(s) => self@.listing_blocked(s@),
                None => self@.any_unreadable(),
            } ==> r is Err,
    {
        let all = match subject_id {
            Some(s) => self.get_files_by_subject(s)?,
            None => self.get_all_files()?,
        };
        match file_type {
            Some(name) => Ok(keep_type(all, name)),
            None => Ok(all),
        }
    }

    /// Remove everything from the three tables. The answer counts the
    /// entries that the primary table held. No value is read or written on
    /// the way, so a purge fails by the store alone.
    pub fn purge_all(&mut self) -> (r: Result<PurgeStats, DatabaseError>)
        ensures
            r matches Ok(stats) ==> {
                &&& final(self)@ == StoreView::empty()
                &&& old(self)@.files.dom().finite()
                &&& stats.files == old(self)@.files.dom().len()
            },
            r matches Err(e) ==> {
                &&& final(self)@ == old(self)@
                &&& e is Transaction || e is Table || e is Storage || e is Commit
            },
    {
        proof {
            lemma_table_names();
            lemma_cleared_is_empty(committed_bytes(self.db), committed_texts(self.db));
        }
        let mut txn = begin_write(&self.db)?;
        let mut stats = PurgeStats::default();
        stats.files = clear_table(&mut txn, FILES)?;
        clear_text_table(&mut txn, FILE_PERMALINKS)?;
        clear_table(&mut txn, SUBJECT_FILES)?;
        commit(txn, &mut self.db)?;
        Ok(stats)
    }

    /// Check if a permalink is already in use.
    pub fn permalink_exists(&self, permalink: &str) -> (r: Result<bool, DatabaseError>)
        ensures
            r matches Ok(b) ==> b == self@.permalinks.contains_key(permalink@),
            r matches Err(e) ==> !(e is Deserialization),
    {
        proof {
            lemma_table_names();
        }
        let txn = begin_read(&self.db)?;
        let found = visible_get_text(&txn, FILE_PERMALINKS, permalink)?;
        Ok(found.is_some())
    }
}

} // verus!
