//! The three tables of the repository and how their stored entries read as
//! a `StoreView`.

use vstd::prelude::*;

use crate::codec::{decoded_ids, decoded_record};
use crate::engine::{pending_bytes, pending_texts, visible_bytes, visible_texts, Entries};
use crate::store::StoreView;

verus! {

/// File records: id to encoded record.
pub const FILES: &'static str = "files";

/// Permalink index: permalink to id.
pub const FILE_PERMALINKS: &'static str = "file_permalinks";

/// Subject index: subject id to encoded list of ids.
pub const SUBJECT_FILES: &'static str = "subject_files";

/// The tables have names, and the two byte-valued ones differ in theirs.
pub(crate) proof fn lemma_table_names()
    ensures
        FILES@.len() > 0,
        FILE_PERMALINKS@.len() > 0,
        SUBJECT_FILES@.len() > 0,
        FILES@ != SUBJECT_FILES@,
{
    reveal_strlit("files");
    reveal_strlit("file_permalinks");
    reveal_strlit("subject_files");
}

/// The store that the entries of the three tables stand for.
pub open spec fn store_view(bytes: Entries<Seq<u8>>, texts: Entries<Seq<char>>) -> StoreView {
    StoreView {
        files: Map::new(
            |id: Seq<char>| bytes.contains_key((FILES@, id)),
            |id: Seq<char>| decoded_record(bytes[(FILES@, id)]),
        ),
        permalinks: Map::new(
            |p: Seq<char>| texts.contains_key((FILE_PERMALINKS@, p)),
            |p: Seq<char>| texts[(FILE_PERMALINKS@, p)],
        ),
        subjects: Map::new(
            |s: Seq<char>| bytes.contains_key((SUBJECT_FILES@, s)),
            |s: Seq<char>| decoded_ids(bytes[(SUBJECT_FILES@, s)]),
        ),
    }
}

/// The store as a write transaction sees it.
pub open spec fn pending_view(txn: redb::WriteTransaction) -> StoreView {
    store_view(pending_bytes(txn), pending_texts(txn))
}

/// The store as a read transaction sees it.
pub open spec fn visible_view(txn: redb::ReadTransaction) -> StoreView {
    store_view(visible_bytes(txn), visible_texts(txn))
}

/// Writing a record's bytes changes the primary table at that id only.
pub(crate) proof fn lemma_file_written(bytes: Entries<Seq<u8>>, texts: Entries<Seq<char>>, id: Seq<char>, b: Seq<u8>)
    ensures
        store_view(bytes.insert((FILES@, id), b), texts) == (StoreView {
            files: store_view(bytes, texts).files.insert(id, decoded_record(b)),
            ..store_view(bytes, texts)
        }),
{
    lemma_table_names();
    let before = store_view(bytes, texts);
    let after = store_view(bytes.insert((FILES@, id), b), texts);
    assert(after.files =~= before.files.insert(id, decoded_record(b)));
    assert(after.subjects =~= before.subjects);
    assert(after.permalinks =~= before.permalinks);
}

/// Removing a record's bytes changes the primary table at that id only.
pub(crate) proof fn lemma_file_removed(bytes: Entries<Seq<u8>>, texts: Entries<Seq<char>>, id: Seq<char>)
    ensures
        store_view(bytes.remove((FILES@, id)), texts) == (StoreView {
            files: store_view(bytes, texts).files.remove(id),
            ..store_view(bytes, texts)
        }),
{
    lemma_table_names();
    let before = store_view(bytes, texts);
    let after = store_view(bytes.remove((FILES@, id)), texts);
    assert(after.files =~= before.files.remove(id));
    assert(after.subjects =~= before.subjects);
    assert(after.permalinks =~= before.permalinks);
}

/// Writing an id list's bytes changes the subject index at that subject only.
pub(crate) proof fn lemma_subject_written(bytes: Entries<Seq<u8>>, texts: Entries<Seq<char>>, s: Seq<char>, b: Seq<u8>)
    ensures
        store_view(bytes.insert((SUBJECT_FILES@, s), b), texts) == (StoreView {
            subjects: store_view(bytes, texts).subjects.insert(s, decoded_ids(b)),
            ..store_view(bytes, texts)
        }),
{
    lemma_table_names();
    let before = store_view(bytes, texts);
    let after = store_view(bytes.insert((SUBJECT_FILES@, s), b), texts);
    assert(after.subjects =~= before.subjects.insert(s, decoded_ids(b)));
    assert(after.files =~= before.files);
    assert(after.permalinks =~= before.permalinks);
}

/// Removing an id list's bytes changes the subject index at that subject only.
pub(crate) proof fn lemma_subject_removed(bytes: Entries<Seq<u8>>, texts: Entries<Seq<char>>, s: Seq<char>)
    ensures
        store_view(bytes.remove((SUBJECT_FILES@, s)), texts) == (StoreView {
            subjects: store_view(bytes, texts).subjects.remove(s),
            ..store_view(bytes, texts)
        }),
{
    lemma_table_names();
    let before = store_view(bytes, texts);
    let after = store_view(bytes.remove((SUBJECT_FILES@, s)), texts);
    assert(after.subjects =~= before.subjects.remove(s));
    assert(after.files =~= before.files);
    assert(after.permalinks =~= before.permalinks);
}

/// Writing a permalink's id changes the permalink index at that permalink only.
pub(crate) proof fn lemma_permalink_written(bytes: Entries<Seq<u8>>, texts: Entries<Seq<char>>, p: Seq<char>, id: Seq<char>)
    ensures
        store_view(bytes, texts.insert((FILE_PERMALINKS@, p), id)) == (StoreView {
            permalinks: store_view(bytes, texts).permalinks.insert(p, id),
            ..store_view(bytes, texts)
        }),
{
    let before = store_view(bytes, texts);
    let after = store_view(bytes, texts.insert((FILE_PERMALINKS@, p), id));
    assert(after.permalinks =~= before.permalinks.insert(p, id));
}

/// Removing a permalink's id changes the permalink index at that permalink only.
pub(crate) proof fn lemma_permalink_removed(bytes: Entries<Seq<u8>>, texts: Entries<Seq<char>>, p: Seq<char>)
    ensures
        store_view(bytes, texts.remove((FILE_PERMALINKS@, p))) == (StoreView {
            permalinks: store_view(bytes, texts).permalinks.remove(p),
            ..store_view(bytes, texts)
        }),
{
    let before = store_view(bytes, texts);
    let after = store_view(bytes, texts.remove((FILE_PERMALINKS@, p)));
    assert(after.permalinks =~= before.permalinks.remove(p));
}

} // verus!
