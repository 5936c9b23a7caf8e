//! The transactional store underneath the repository: `redb`, reached
//! through a handful of calls whose effect is stated over the entries that a
//! database, a write transaction and a read transaction hold.
//!
//! Entries are keyed by table name and key. Tables with byte values and
//! tables with text values are held apart, as the store itself holds them.

// The store's own handle goes by a short name here, apart from the
// repository that this library builds on it.
use redb::Database as Redb;
use vstd::prelude::*;

use crate::codec::texts;
use crate::error::DatabaseError;
use crate::text::text_before;

verus! {

/// `redb::Database`: an opened store. Nothing of its inside is known here.
#[verifier::external_type_specification]
#[verifier::external_body]
pub struct ExRedb(Redb);

/// `redb::WriteTransaction`: the one writer of a store at a time. What it
/// wrote is gone when it is dropped without a commit.
#[verifier::external_type_specification]
#[verifier::external_body]
pub struct ExWriteTransaction(redb::WriteTransaction);

/// `redb::ReadTransaction`: a reader of what was committed when it began.
#[verifier::external_type_specification]
#[verifier::external_body]
pub struct ExReadTransaction(redb::ReadTransaction);

/// Entries of a store, keyed by table name and key.
pub type Entries<V> = Map<(Seq<char>, Seq<char>), V>;

/// The committed entries of the byte-valued tables of a database.
pub uninterp spec fn committed_bytes(db: Redb) -> Map<(Seq<char>, Seq<char>), Seq<u8>>;

/// The committed entries of the text-valued tables of a database.
pub uninterp spec fn committed_texts(db: Redb) -> Map<(Seq<char>, Seq<char>), Seq<char>>;

/// The byte-valued entries as a write transaction sees them: what was
/// committed when it began, with its own writes applied.
pub uninterp spec fn pending_bytes(txn: redb::WriteTransaction) -> Map<(Seq<char>, Seq<char>), Seq<u8>>;

/// The text-valued entries as a write transaction sees them.
pub uninterp spec fn pending_texts(txn: redb::WriteTransaction) -> Map<(Seq<char>, Seq<char>), Seq<char>>;

/// The database, in the state it was in, on which a write transaction began.
pub uninterp spec fn begun_on(txn: redb::WriteTransaction) -> Redb;

/// The byte-valued entries that a read transaction sees.
pub uninterp spec fn visible_bytes(txn: redb::ReadTransaction) -> Map<(Seq<char>, Seq<char>), Seq<u8>>;

/// The text-valued entries that a read transaction sees.
pub uninterp spec fn visible_texts(txn: redb::ReadTransaction) -> Map<(Seq<char>, Seq<char>), Seq<char>>;

/// `found` is what `entries` holds under `key` of `table`.
pub open spec fn is_entry<V>(found: Option<V>, entries: Entries<V>, table: Seq<char>, key: Seq<char>) -> bool {
    match found {
        Some(v) => entries.contains_key((table, key)) && entries[(table, key)] == v,
        None => !entries.contains_key((table, key)),
    }
}

/// The bytes of an optional buffer.
pub open spec fn bytes_view(b: Option<Vec<u8>>) -> Option<Seq<u8>> {
    match b {
        Some(v) => Some(v@),
        None => None,
    }
}

/// `keys` holds each key of `table` in `entries` once, and nothing else.
pub open spec fn lists_keys<V>(keys: Seq<Seq<char>>, entries: Entries<V>, table: Seq<char>) -> bool {
    &&& keys.no_duplicates()
    &&& forall|k: Seq<char>| #[trigger] keys.contains(k) <==> entries.contains_key((table, k))
}

/// `rows` holds each entry of `table` in `entries` once, key and value, and
/// nothing else, in ascending order of the keys.
pub open spec fn lists_rows(rows: Seq<(String, Vec<u8>)>, entries: Entries<Seq<u8>>, table: Seq<char>) -> bool {
    &&& forall|i: int, j: int| 0 <= i < j < rows.len() ==> text_before(rows[i].0@, rows[j].0@)
    &&& forall|i: int| 0 <= i < rows.len() ==> is_entry(Some((#[trigger] rows[i]).1@), entries, table, rows[i].0@)
    &&& forall|k: Seq<char>| #[trigger] entries.contains_key((table, k)) ==> exists|i: int| 0 <= i < rows.len() && (#[trigger] rows[i]).0@ == k
}

/// `redb::Database::begin_write`. Claimed: the transaction starts from what
/// the database has committed.
#[verifier::external_body]
pub(crate) fn begin_write(db: &Redb) -> (r: Result<redb::WriteTransaction, DatabaseError>)
    ensures
        r matches Ok(txn) ==> begun_on(txn) == *db && pending_bytes(txn) == committed_bytes(*db)
            && pending_texts(txn) == committed_texts(*db),
        r matches Err(e) ==> e is Transaction,
{
    match db.begin_write() {
        Ok(txn) => Ok(txn),
        Err(e) => Err(DatabaseError::Transaction(Box::new(e))),
    }
}

/// `redb::WriteTransaction::commit`, for a transaction that began on `db`.
/// Claimed: on success the database holds what the transaction saw; on
/// failure this process goes on seeing what the database held before.
#[verifier::external_body]
pub(crate) fn commit(txn: redb::WriteTransaction, db: &mut Redb) -> (r: Result<(), DatabaseError>)
    requires
        begun_on(txn) == *old(db),
    ensures
        r is Ok ==> committed_bytes(*final(db)) == pending_bytes(txn) && committed_texts(*final(db))
            == pending_texts(txn),
        r matches Err(e) ==> e is Commit && committed_bytes(*final(db)) == committed_bytes(*old(db))
            && committed_texts(*final(db)) == committed_texts(*old(db)),
{
    match txn.commit() {
        Ok(()) => Ok(()),
        Err(e) => Err(DatabaseError::Commit(Box::new(e))),
    }
}

/// `redb::WriteTransaction::open_table` for a byte-valued table, which
/// creates the table where it is missing. Claimed: no entry changes.
#[verifier::external_body]
pub(crate) fn ensure_bytes_table(txn: &mut redb::WriteTransaction, table: &str) -> (r: Result<(), DatabaseError>)
    requires
        table@.len() > 0,
    ensures
        begun_on(*final(txn)) == begun_on(*old(txn)),
        r is Ok ==> pending_bytes(*final(txn)) == pending_bytes(*old(txn)) && pending_texts(*final(txn))
            == pending_texts(*old(txn)),
        r matches Err(e) ==> e is Table,
{
    match txn.open_table(redb::TableDefinition::<&str, &[u8]>::new(table)) {
        Ok(_) => Ok(()),
        Err(e) => Err(DatabaseError::Table(Box::new(e))),
    }
}

/// `redb::WriteTransaction::open_table` for a text-valued table, which
/// creates the table where it is missing. Claimed: no entry changes.
#[verifier::external_body]
pub(crate) fn ensure_text_table(txn: &mut redb::WriteTransaction, table: &str) -> (r: Result<(), DatabaseError>)
    requires
        table@.len() > 0,
    ensures
        begun_on(*final(txn)) == begun_on(*old(txn)),
        r is Ok ==> pending_bytes(*final(txn)) == pending_bytes(*old(txn)) && pending_texts(*final(txn))
            == pending_texts(*old(txn)),
        r matches Err(e) ==> e is Table,
{
    match txn.open_table(redb::TableDefinition::<&str, &str>::new(table)) {
        Ok(_) => Ok(()),
        Err(e) => Err(DatabaseError::Table(Box::new(e))),
    }
}

/// `redb::Table::get` on a byte-valued table of a write transaction.
/// Claimed: the value under the key, if there is one.
#[verifier::external_body]
pub(crate) fn pending_get(txn: &redb::WriteTransaction, table: &str, key: &str) -> (r: Result<Option<Vec<u8>>, DatabaseError>)
    requires
        table@.len() > 0,
    ensures
        r matches Ok(found) ==> is_entry(bytes_view(found), pending_bytes(*txn), table@, key@),
        r matches Err(e) ==> e is Table || e is Storage,
{
    let t = match txn.open_table(redb::TableDefinition::<&str, &[u8]>::new(table)) {
        Ok(t) => t,
        Err(e) => return Err(DatabaseError::Table(Box::new(e))),
    };
    let found = match redb::ReadableTable::get(&t, key) {
        Ok(g) => Ok(g.map(|v| v.value().to_vec())),
        Err(e) => Err(DatabaseError::Storage(Box::new(e))),
    };
    found
}

/// `redb::Table::insert` on a byte-valued table. Claimed: the key now holds
/// the value, and nothing else changes.
#[verifier::external_body]
pub(crate) fn pending_insert(txn: &mut redb::WriteTransaction, table: &str, key: &str, value: &[u8]) -> (r: Result<(), DatabaseError>)
    requires
        table@.len() > 0,
    ensures
        begun_on(*final(txn)) == begun_on(*old(txn)),
        r is Ok ==> pending_bytes(*final(txn)) == pending_bytes(*old(txn)).insert((table@, key@), value@)
            && pending_texts(*final(txn)) == pending_texts(*old(txn)),
        r matches Err(e) ==> e is Table || e is Storage,
{
    let mut t = match txn.open_table(redb::TableDefinition::<&str, &[u8]>::new(table)) {
        Ok(t) => t,
        Err(e) => return Err(DatabaseError::Table(Box::new(e))),
    };
    let done = match t.insert(key, value) {
        Ok(_) => Ok(()),
        Err(e) => Err(DatabaseError::Storage(Box::new(e))),
    };
    done
}

/// `redb::Table::remove` on a byte-valued table. Claimed: the key holds
/// nothing any more, and nothing else changes.
#[verifier::external_body]
pub(crate) fn pending_remove(txn: &mut redb::WriteTransaction, table: &str, key: &str) -> (r: Result<(), DatabaseError>)
    requires
        table@.len() > 0,
    ensures
        begun_on(*final(txn)) == begun_on(*old(txn)),
        r is Ok ==> pending_bytes(*final(txn)) == pending_bytes(*old(txn)).remove((table@, key@))
            && pending_texts(*final(txn)) == pending_texts(*old(txn)),
        r matches Err(e) ==> e is Table || e is Storage,
{
    let mut t = match txn.open_table(redb::TableDefinition::<&str, &[u8]>::new(table)) {
        Ok(t) => t,
        Err(e) => return Err(DatabaseError::Table(Box::new(e))),
    };
    let done = match t.remove(key) {
        Ok(_) => Ok(()),
        Err(e) => Err(DatabaseError::Storage(Box::new(e))),
    };
    done
}

/// `redb::Table::insert` on a text-valued table. Claimed: the key now holds
/// the value, and nothing else changes.
#[verifier::external_body]
pub(crate) fn pending_insert_text(txn: &mut redb::WriteTransaction, table: &str, key: &str, value: &str) -> (r: Result<(), DatabaseError>)
    requires
        table@.len() > 0,
    ensures
        begun_on(*final(txn)) == begun_on(*old(txn)),
        r is Ok ==> pending_texts(*final(txn)) == pending_texts(*old(txn)).insert((table@, key@), value@)
            && pending_bytes(*final(txn)) == pending_bytes(*old(txn)),
        r matches Err(e) ==> e is Table || e is Storage,
{
    let mut t = match txn.open_table(redb::TableDefinition::<&str, &str>::new(table)) {
        Ok(t) => t,
        Err(e) => return Err(DatabaseError::Table(Box::new(e))),
    };
    let done = match t.insert(key, value) {
        Ok(_) => Ok(()),
        Err(e) => Err(DatabaseError::Storage(Box::new(e))),
    };
    done
}

/// `redb::Table::remove` on a text-valued table. Claimed: the key holds
/// nothing any more, and nothing else changes.
#[verifier::external_body]
pub(crate) fn pending_remove_text(txn: &mut redb::WriteTransaction, table: &str, key: &str) -> (r: Result<(), DatabaseError>)
    requires
        table@.len() > 0,
    ensures
        begun_on(*final(txn)) == begun_on(*old(txn)),
        r is Ok ==> pending_texts(*final(txn)) == pending_texts(*old(txn)).remove((table@, key@))
            && pending_bytes(*final(txn)) == pending_bytes(*old(txn)),
        r matches Err(e) ==> e is Table || e is Storage,
{
    let mut t = match txn.open_table(redb::TableDefinition::<&str, &str>::new(table)) {
        Ok(t) => t,
        Err(e) => return Err(DatabaseError::Table(Box::new(e))),
    };
    let done = match t.remove(key) {
        Ok(_) => Ok(()),
        Err(e) => Err(DatabaseError::Storage(Box::new(e))),
    };
    done
}

/// `redb::ReadableTable::iter` on a byte-valued table of a write
/// transaction, keeping the keys. Claimed: every key of the table, once.
#[verifier::external_body]
pub(crate) fn pending_keys(txn: &redb::WriteTransaction, table: &str) -> (r: Result<Vec<String>, DatabaseError>)
    requires
        table@.len() > 0,
    ensures
        r matches Ok(keys) ==> lists_keys(texts(keys@), pending_bytes(*txn), table@),
        r matches Err(e) ==> e is Table || e is Storage,
{
    let t = match txn.open_table(redb::TableDefinition::<&str, &[u8]>::new(table)) {
        Ok(t) => t,
        Err(e) => return Err(DatabaseError::Table(Box::new(e))),
    };
    let rows = match redb::ReadableTable::iter(&t) {
        Ok(rows) => rows,
        Err(e) => return Err(DatabaseError::Storage(Box::new(e))),
    };
    let keys: Result<Vec<String>, redb::StorageError> = rows.map(|row| row.map(|(k, _)| k.value().to_string())).collect();
    keys.map_err(|e| DatabaseError::Storage(Box::new(e)))
}

/// `redb::ReadableTable::iter` on a text-valued table of a write
/// transaction, keeping the keys. Claimed: every key of the table, once.
#[verifier::external_body]
pub(crate) fn pending_text_keys(txn: &redb::WriteTransaction, table: &str) -> (r: Result<Vec<String>, DatabaseError>)
    requires
        table@.len() > 0,
    ensures
        r matches Ok(keys) ==> lists_keys(texts(keys@), pending_texts(*txn), table@),
        r matches Err(e) ==> e is Table || e is Storage,
{
    let t = match txn.open_table(redb::TableDefinition::<&str, &str>::new(table)) {
        Ok(t) => t,
        Err(e) => return Err(DatabaseError::Table(Box::new(e))),
    };
    let rows = match redb::ReadableTable::iter(&t) {
        Ok(rows) => rows,
        Err(e) => return Err(DatabaseError::Storage(Box::new(e))),
    };
    let keys: Result<Vec<String>, redb::StorageError> = rows.map(|row| row.map(|(k, _)| k.value().to_string())).collect();
    keys.map_err(|e| DatabaseError::Storage(Box::new(e)))
}

/// `redb::Database::begin_read`. Claimed: the transaction sees what the
/// database has committed.
#[verifier::external_body]
pub(crate) fn begin_read(db: &Redb) -> (r: Result<redb::ReadTransaction, DatabaseError>)
    ensures
        r matches Ok(txn) ==> visible_bytes(txn) == committed_bytes(*db) && visible_texts(txn)
            == committed_texts(*db),
        r matches Err(e) ==> e is Transaction,
{
    match db.begin_read() {
        Ok(txn) => Ok(txn),
        Err(e) => Err(DatabaseError::Transaction(Box::new(e))),
    }
}

/// `redb::ReadOnlyTable::get` on a byte-valued table. Claimed: the value
/// under the key, if there is one.
#[verifier::external_body]
pub(crate) fn visible_get(txn: &redb::ReadTransaction, table: &str, key: &str) -> (r: Result<Option<Vec<u8>>, DatabaseError>)
    requires
        table@.len() > 0,
    ensures
        r matches Ok(found) ==> is_entry(bytes_view(found), visible_bytes(*txn), table@, key@),
        r matches Err(e) ==> e is Table || e is Storage,
{
    let t = match txn.open_table(redb::TableDefinition::<&str, &[u8]>::new(table)) {
        Ok(t) => t,
        Err(e) => return Err(DatabaseError::Table(Box::new(e))),
    };
    match t.get(key) {
        Ok(g) => Ok(g.map(|v| v.value().to_vec())),
        Err(e) => Err(DatabaseError::Storage(Box::new(e))),
    }
}

/// `redb::ReadOnlyTable::get` on a text-valued table. Claimed: the value
/// under the key, if there is one.
#[verifier::external_body]
pub(crate) fn visible_get_text(txn: &redb::ReadTransaction, table: &str, key: &str) -> (r: Result<Option<String>, DatabaseError>)
    requires
        table@.len() > 0,
    ensures
        r matches Ok(found) ==> is_entry(crate::models::text_view(found), visible_texts(*txn), table@, key@),
        r matches Err(e) ==> e is Table || e is Storage,
{
    let t = match txn.open_table(redb::TableDefinition::<&str, &str>::new(table)) {
        Ok(t) => t,
        Err(e) => return Err(DatabaseError::Table(Box::new(e))),
    };
    match t.get(key) {
        Ok(g) => Ok(g.map(|v| v.value().to_string())),
        Err(e) => Err(DatabaseError::Storage(Box::new(e))),
    }
}

/// `redb::ReadableTable::iter` on a byte-valued table of a read
/// transaction. Claimed: every entry of the table, once, in the order in
/// which `str` orders the keys.
#[verifier::external_body]
pub(crate) fn visible_rows(txn: &redb::ReadTransaction, table: &str) -> (r: Result<Vec<(String, Vec<u8>)>, DatabaseError>)
    requires
        table@.len() > 0,
    ensures
        r matches Ok(rows) ==> lists_rows(rows@, visible_bytes(*txn), table@),
        r matches Err(e) ==> e is Table || e is Storage,
{
    let t = match txn.open_table(redb::TableDefinition::<&str, &[u8]>::new(table)) {
        Ok(t) => t,
        Err(e) => return Err(DatabaseError::Table(Box::new(e))),
    };
    let rows = match redb::ReadableTable::iter(&t) {
        Ok(rows) => rows,
        Err(e) => return Err(DatabaseError::Storage(Box::new(e))),
    };
    let all: Result<Vec<(String, Vec<u8>)>, redb::StorageError> = rows.map(|row| row.map(|(k, v)| (k.value().to_string(), v.value().to_vec()))).collect();
    all.map_err(|e| DatabaseError::Storage(Box::new(e)))
}

} // verus!
