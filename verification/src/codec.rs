//! The stored form of records and of subject id lists: MessagePack, written
//! and read by `rmp_serde`.
//!
//! A record is stored as its fields by name, in four tables, one for each
//! kind of value: texts, counts, times and objects. A reader finds each
//! field by its name, takes an optional field that is not there as absent,
//! and passes over fields that it does not know. Nothing is handed out for
//! storing that has not been read back.

use serde_json::Value;
use std::collections::BTreeMap;
use std::collections::HashMap;
use vstd::prelude::*;

use crate::error::DatabaseError;
use crate::models::{
    copy_metadata, copy_text, lemma_wire_name_reads_back, metadata_view, text_view, FileRecord,
    FileRecordView, FileType, Timestamp,
};
use crate::text::{join3, same_text};

verus! {

pub const ID: &'static str = "id";

pub const MIME_TYPE: &'static str = "mime_type";

pub const FILE_TYPE: &'static str = "file_type";

pub const BYTE_SIZE: &'static str = "byte_size";

pub const PERMALINK: &'static str = "permalink";

pub const CREATED_AT: &'static str = "created_at";

pub const UPDATED_AT: &'static str = "updated_at";

pub const ALT: &'static str = "alt";

pub const DESCRIPTION: &'static str = "description";

pub const METADATA: &'static str = "metadata";

pub const NAME: &'static str = "name";

pub const SUBJECT_ID: &'static str = "subject_id";

/// No stored form is longer than this many bytes: the lengths inside it
/// are written in four bytes.
pub const LONGEST: u64 = 0xffff_ffff;

/// Fields by name, one list for each kind of value. Of two entries of one
/// list under the same name, the later one counts.
pub struct StoredFields {
    pub texts: Vec<(String, Option<String>)>,
    pub counts: Vec<(String, u64)>,
    pub times: Vec<(String, (i64, u32))>,
    pub objects: Vec<(String, Option<HashMap<String, serde_json::Value>>)>,
}

/// What stored fields hold, as mathematical values.
pub struct StoredFieldsView {
    pub texts: Seq<(Seq<char>, Option<Seq<char>>)>,
    pub counts: Seq<(Seq<char>, u64)>,
    pub times: Seq<(Seq<char>, (i64, u32))>,
    pub objects: Seq<(Seq<char>, Option<Map<String, serde_json::Value>>)>,
}

pub open spec fn texts_view(v: Seq<(String, Option<String>)>) -> Seq<(Seq<char>, Option<Seq<char>>)> {
    v.map_values(|e: (String, Option<String>)| (e.0@, text_view(e.1)))
}

pub open spec fn counts_view(v: Seq<(String, u64)>) -> Seq<(Seq<char>, u64)> {
    v.map_values(|e: (String, u64)| (e.0@, e.1))
}

pub open spec fn times_view(v: Seq<(String, (i64, u32))>) -> Seq<(Seq<char>, (i64, u32))> {
    v.map_values(|e: (String, (i64, u32))| (e.0@, e.1))
}

pub open spec fn objects_view(v: Seq<(String, Option<HashMap<String, serde_json::Value>>)>) -> Seq<
    (Seq<char>, Option<Map<String, serde_json::Value>>),
> {
    v.map_values(|e: (String, Option<HashMap<String, serde_json::Value>>)| (e.0@, metadata_view(e.1)))
}

impl View for StoredFields {
    type V = StoredFieldsView;

    open spec fn view(&self) -> StoredFieldsView {
        StoredFieldsView {
            texts: texts_view(self.texts@),
            counts: counts_view(self.counts@),
            times: times_view(self.times@),
            objects: objects_view(self.objects@),
        }
    }
}

/// The value under `name` in a list of named values: that of the last entry
/// of that name.
pub open spec fn lookup<V>(entries: Seq<(Seq<char>, V)>, name: Seq<char>) -> Option<V>
    decreases entries.len(),
{
    if entries.len() == 0 {
        None
    } else if entries.last().0 == name {
        Some(entries.last().1)
    } else {
        lookup(entries.drop_last(), name)
    }
}

/// No two entries of a list stand under the same name.
pub open spec fn distinct_names<V>(entries: Seq<(Seq<char>, V)>) -> bool {
    forall|i: int, j: int| 0 <= i < j < entries.len() ==> entries[i].0 != entries[j].0
}

/// Two sets of stored fields hold the same value under every name.
pub open spec fn same_fields(a: StoredFieldsView, b: StoredFieldsView) -> bool {
    forall|name: Seq<char>|
        #![trigger lookup(a.texts, name)]
        #![trigger lookup(a.counts, name)]
        #![trigger lookup(a.times, name)]
        #![trigger lookup(a.objects, name)]
        {
            &&& lookup(a.texts, name) == lookup(b.texts, name)
            &&& lookup(a.counts, name) == lookup(b.counts, name)
            &&& lookup(a.times, name) == lookup(b.times, name)
            &&& lookup(a.objects, name) == lookup(b.objects, name)
        }
}

/// The bytes that `rmp_serde::to_vec_named` writes for stored fields, each
/// list as a map in the order of its keys; `None` where it reports an error.
pub uninterp spec fn fields_encoding(f: StoredFieldsView) -> Option<Seq<u8>>;

/// The stored fields that `rmp_serde::from_slice` reads from `bytes`, each
/// list in the order of its keys; `None` where it reports an error.
pub uninterp spec fn fields_decoding(bytes: Seq<u8>) -> Option<StoredFieldsView>;

/// The bytes that `rmp_serde::to_vec_named` writes for a list of texts;
/// `None` where it reports an error.
pub uninterp spec fn id_list_encoding(ids: Seq<Seq<char>>) -> Option<Seq<u8>>;

/// The list of texts that `rmp_serde::from_slice` reads from `bytes`; `None`
/// where it reports an error.
pub uninterp spec fn id_list_decoding(bytes: Seq<u8>) -> Option<Seq<Seq<char>>>;

/// The texts of a list, in order.
pub open spec fn texts(v: Seq<String>) -> Seq<Seq<char>> {
    v.map_values(|s: String| s@)
}

/// `rmp_serde::to_vec_named` on the four lists, each as a map sorted by key,
/// for lists without a repeated name. Claimed: the bytes are a function of
/// the fields, named `fields_encoding`; and bytes of no more than `LONGEST`,
/// where they read back at all, read back as fields that hold the same value
/// under every name.
#[verifier::external_body]
fn write_fields(f: &StoredFields) -> (out: Result<Vec<u8>, rmp_serde::encode::Error>)
    requires
        distinct_names(f@.texts),
        distinct_names(f@.counts),
        distinct_names(f@.times),
        distinct_names(f@.objects),
    ensures
        out matches Ok(b) ==> fields_encoding(f@) == Some(b@),
        out is Err ==> fields_encoding(f@) is None,
        out matches Ok(b) ==> (b@.len() <= LONGEST ==> (fields_decoding(b@) matches Some(back) ==> same_fields(
            back,
            f@,
        ))),
{
    let texts: BTreeMap<_, _> = f.texts.iter().map(|e| (&e.0, &e.1)).collect();
    let counts: BTreeMap<_, _> = f.counts.iter().map(|e| (&e.0, e.1)).collect();
    let times: BTreeMap<_, _> = f.times.iter().map(|e| (&e.0, e.1)).collect();
    let objects: BTreeMap<_, _> = f.objects.iter()
        .map(|e| (&e.0, e.1.as_ref().map(|m| m.iter().collect::<BTreeMap<_, _>>())))
        .collect();
    rmp_serde::to_vec_named(&(texts, counts, times, objects))
}

/// `rmp_serde::from_slice` for the four maps. Claimed: the result is a
/// function of the bytes, named `fields_decoding`.
#[verifier::external_body]
fn read_fields(bytes: &[u8]) -> (out: Result<StoredFields, rmp_serde::decode::Error>)
    ensures
        out matches Ok(f) ==> fields_decoding(bytes@) == Some(f@),
        out is Err ==> fields_decoding(bytes@) is None,
{
    let (texts, counts, times, objects): (
        BTreeMap<String, Option<String>>,
        BTreeMap<String, u64>,
        BTreeMap<String, (i64, u32)>,
        BTreeMap<String, Option<HashMap<String, Value>>>,
    ) = rmp_serde::from_slice(bytes)?;
    Ok(StoredFields {
        texts: texts.into_iter().collect(),
        counts: counts.into_iter().collect(),
        times: times.into_iter().collect(),
        objects: objects.into_iter().collect(),
    })
}

/// `rmp_serde::to_vec_named` on a list of texts. Claimed: the bytes are a
/// function of the list, named `id_list_encoding`.
#[verifier::external_body]
fn write_id_list(ids: &Vec<String>) -> (out: Result<Vec<u8>, rmp_serde::encode::Error>)
    ensures
        out matches Ok(b) ==> id_list_encoding(texts(ids@)) == Some(b@),
        out is Err ==> id_list_encoding(texts(ids@)) is None,
{
    rmp_serde::to_vec_named(ids)
}

/// `rmp_serde::from_slice` for a list of texts. Claimed: the result is a
/// function of the bytes, named `id_list_decoding`.
#[verifier::external_body]
fn read_id_list(bytes: &[u8]) -> (out: Result<Vec<String>, rmp_serde::decode::Error>)
    ensures
        out matches Ok(ids) ==> id_list_decoding(bytes@) == Some(texts(ids@)),
        out is Err ==> id_list_decoding(bytes@) is None,
{
    rmp_serde::from_slice::<Vec<String>>(bytes)
}

/// `serde::de::Error::custom` as `rmp_serde` builds it: a decoding error
/// with the given words. Nothing is claimed of the error.
#[verifier::external_body]
fn decode_failure(message: &str) -> rmp_serde::decode::Error {
    serde::de::Error::custom(message)
}

/// `serde::ser::Error::custom` as `rmp_serde` builds it: an encoding error
/// with the given words. Nothing is claimed of the error.
#[verifier::external_body]
fn encode_failure(message: &str) -> rmp_serde::encode::Error {
    serde::ser::Error::custom(message)
}

/// What a field holds that may be missing or null: nothing in both cases.
pub open spec fn flat<V>(v: Option<Option<V>>) -> Option<V> {
    match v {
        Some(Some(x)) => Some(x),
        _ => None,
    }
}

/// The time that a pair of seconds and nanoseconds stands for.
pub open spec fn time_of(p: (i64, u32)) -> Timestamp {
    Timestamp { secs: p.0, nanos: p.1 }
}

/// The fields under which a record is stored: each under its name, the
/// file type by its stored name, a time as its seconds and nanoseconds.
pub open spec fn stored_fields(r: FileRecordView) -> StoredFieldsView {
    StoredFieldsView {
        texts: seq![
            (ID@, Some(r.id)),
            (MIME_TYPE@, Some(r.mime_type)),
            (FILE_TYPE@, Some(r.file_type.wire_name())),
            (PERMALINK@, Some(r.permalink)),
            (ALT@, r.alt),
            (DESCRIPTION@, r.description),
            (NAME@, r.name),
            (SUBJECT_ID@, r.subject_id),
        ],
        counts: seq![(BYTE_SIZE@, r.byte_size)],
        times: seq![
            (CREATED_AT@, (r.created_at.secs, r.created_at.nanos)),
            (UPDATED_AT@, (r.updated_at.secs, r.updated_at.nanos)),
        ],
        objects: seq![(METADATA@, r.metadata)],
    }
}

/// The record that stored fields stand for. The id, the MIME type, the file
/// type, the permalink, the size and the two times have to be there, and
/// the file type under a known name; every other field may be missing or
/// null.
pub open spec fn record_in(f: StoredFieldsView) -> Option<FileRecordView> {
    let id = flat(lookup(f.texts, ID@));
    let mime_type = flat(lookup(f.texts, MIME_TYPE@));
    let kind = flat(lookup(f.texts, FILE_TYPE@));
    let byte_size = lookup(f.counts, BYTE_SIZE@);
    let permalink = flat(lookup(f.texts, PERMALINK@));
    let created = lookup(f.times, CREATED_AT@);
    let updated = lookup(f.times, UPDATED_AT@);
    if id is Some && mime_type is Some && kind is Some && FileType::named(kind->0) is Some && byte_size is Some
        && permalink is Some && created is Some && updated is Some {
        Some(
            FileRecordView {
                id: id->0,
                mime_type: mime_type->0,
                file_type: FileType::named(kind->0)->0,
                byte_size: byte_size->0,
                permalink: permalink->0,
                created_at: time_of(created->0),
                updated_at: time_of(updated->0),
                alt: flat(lookup(f.texts, ALT@)),
                description: flat(lookup(f.texts, DESCRIPTION@)),
                metadata: flat(lookup(f.objects, METADATA@)),
                name: flat(lookup(f.texts, NAME@)),
                subject_id: flat(lookup(f.texts, SUBJECT_ID@)),
            },
        )
    } else {
        None
    }
}

/// The record that stored bytes hold; `None` where they hold none.
pub open spec fn decoded_record(bytes: Seq<u8>) -> Option<FileRecordView> {
    match fields_decoding(bytes) {
        Some(f) => record_in(f),
        None => None,
    }
}

/// The id list that stored bytes hold; `None` where they hold none.
pub open spec fn decoded_ids(bytes: Seq<u8>) -> Option<Seq<Seq<char>>> {
    id_list_decoding(bytes)
}

/// Whether a record can be stored: its fields can be written, in no more
/// than `LONGEST` bytes, and what is written can be read.
pub open spec fn storable(r: FileRecordView) -> bool {
    fields_encoding(stored_fields(r)) matches Some(b) && b.len() <= LONGEST && fields_decoding(b) is Some
}

/// Whether an id list can be stored: it can be written, and what is written
/// reads back as the same list.
pub open spec fn list_storable(ids: Seq<Seq<char>>) -> bool {
    id_list_encoding(ids) matches Some(b) && id_list_decoding(b) == Some(ids)
}

/// One more entry at the end of a list decides the lookups of its name and
/// leaves all others.
pub proof fn lemma_lookup_push<V>(entries: Seq<(Seq<char>, V)>, entry: (Seq<char>, V), name: Seq<char>)
    ensures
        lookup(entries.push(entry), name) == if entry.0 == name {
            Some(entry.1)
        } else {
            lookup(entries, name)
        },
{
    assert(entries.push(entry).drop_last() =~= entries);
}

/// The names of the text fields differ from one another.
proof fn lemma_text_names()
    ensures
        ID@ != MIME_TYPE@ && ID@ != FILE_TYPE@ && ID@ != PERMALINK@ && ID@ != ALT@ && ID@ != DESCRIPTION@
            && ID@ != NAME@ && ID@ != SUBJECT_ID@,
        MIME_TYPE@ != FILE_TYPE@ && MIME_TYPE@ != PERMALINK@ && MIME_TYPE@ != ALT@ && MIME_TYPE@
            != DESCRIPTION@ && MIME_TYPE@ != NAME@ && MIME_TYPE@ != SUBJECT_ID@,
        FILE_TYPE@ != PERMALINK@ && FILE_TYPE@ != ALT@ && FILE_TYPE@ != DESCRIPTION@ && FILE_TYPE@ != NAME@
            && FILE_TYPE@ != SUBJECT_ID@,
        PERMALINK@ != ALT@ && PERMALINK@ != DESCRIPTION@ && PERMALINK@ != NAME@ && PERMALINK@ != SUBJECT_ID@,
        ALT@ != DESCRIPTION@ && ALT@ != NAME@ && ALT@ != SUBJECT_ID@,
        DESCRIPTION@ != NAME@ && DESCRIPTION@ != SUBJECT_ID@,
        NAME@ != SUBJECT_ID@,
        CREATED_AT@ != UPDATED_AT@,
{
    reveal_strlit("id");
    reveal_strlit("mime_type");
    reveal_strlit("file_type");
    reveal_strlit("permalink");
    reveal_strlit("alt");
    reveal_strlit("description");
    reveal_strlit("name");
    reveal_strlit("subject_id");
    reveal_strlit("created_at");
    reveal_strlit("updated_at");
    assert(ID@.len() == 2 && ALT@.len() == 3 && NAME@.len() == 4 && SUBJECT_ID@.len() == 10 && DESCRIPTION@.len()
        == 11);
    assert(MIME_TYPE@[0] == 'm' && FILE_TYPE@[0] == 'f' && PERMALINK@[0] == 'p');
    assert(MIME_TYPE@.len() == 9 && FILE_TYPE@.len() == 9 && PERMALINK@.len() == 9);
    assert(CREATED_AT@[0] == 'c' && UPDATED_AT@[0] == 'u');
}

/// No name stands twice among the fields of a record.
pub proof fn lemma_stored_names_distinct(r: FileRecordView)
    ensures
        distinct_names(stored_fields(r).texts),
        distinct_names(stored_fields(r).counts),
        distinct_names(stored_fields(r).times),
        distinct_names(stored_fields(r).objects),
{
    lemma_text_names();
}

/// What the text fields of a record hold under a name.
proof fn lemma_text_lookup(r: FileRecordView, name: Seq<char>)
    ensures
        lookup(stored_fields(r).texts, name) == if name == SUBJECT_ID@ {
            Some(r.subject_id)
        } else if name == NAME@ {
            Some(r.name)
        } else if name == DESCRIPTION@ {
            Some(r.description)
        } else if name == ALT@ {
            Some(r.alt)
        } else if name == PERMALINK@ {
            Some(Some(r.permalink))
        } else if name == FILE_TYPE@ {
            Some(Some(r.file_type.wire_name()))
        } else if name == MIME_TYPE@ {
            Some(Some(r.mime_type))
        } else if name == ID@ {
            Some(Some(r.id))
        } else {
            None
        },
{
    let none = Seq::<(Seq<char>, Option<Seq<char>>)>::empty();
    let t1 = none.push((ID@, Some(r.id)));
    let t2 = t1.push((MIME_TYPE@, Some(r.mime_type)));
    let t3 = t2.push((FILE_TYPE@, Some(r.file_type.wire_name())));
    let t4 = t3.push((PERMALINK@, Some(r.permalink)));
    let t5 = t4.push((ALT@, r.alt));
    let t6 = t5.push((DESCRIPTION@, r.description));
    let t7 = t6.push((NAME@, r.name));
    let t8 = t7.push((SUBJECT_ID@, r.subject_id));
    assert(stored_fields(r).texts =~= t8);
    lemma_lookup_push(none, (ID@, Some(r.id)), name);
    lemma_lookup_push(t1, (MIME_TYPE@, Some(r.mime_type)), name);
    lemma_lookup_push(t2, (FILE_TYPE@, Some(r.file_type.wire_name())), name);
    lemma_lookup_push(t3, (PERMALINK@, Some(r.permalink)), name);
    lemma_lookup_push(t4, (ALT@, r.alt), name);
    lemma_lookup_push(t5, (DESCRIPTION@, r.description), name);
    lemma_lookup_push(t6, (NAME@, r.name), name);
    lemma_lookup_push(t7, (SUBJECT_ID@, r.subject_id), name);
}

/// The fields under which a record is stored stand for that record.
pub proof fn lemma_fields_hold_record(r: FileRecordView)
    ensures
        record_in(stored_fields(r)) == Some(r),
{
    lemma_text_names();
    lemma_wire_name_reads_back(r.file_type);
    let f = stored_fields(r);
    lemma_text_lookup(r, ID@);
    lemma_text_lookup(r, MIME_TYPE@);
    lemma_text_lookup(r, FILE_TYPE@);
    lemma_text_lookup(r, PERMALINK@);
    lemma_text_lookup(r, ALT@);
    lemma_text_lookup(r, DESCRIPTION@);
    lemma_text_lookup(r, NAME@);
    lemma_text_lookup(r, SUBJECT_ID@);
    let c0 = Seq::<(Seq<char>, u64)>::empty();
    assert(f.counts =~= c0.push((BYTE_SIZE@, r.byte_size)));
    lemma_lookup_push(c0, (BYTE_SIZE@, r.byte_size), BYTE_SIZE@);
    let m0 = Seq::<(Seq<char>, (i64, u32))>::empty();
    let created = (CREATED_AT@, (r.created_at.secs, r.created_at.nanos));
    let updated = (UPDATED_AT@, (r.updated_at.secs, r.updated_at.nanos));
    assert(f.times =~= m0.push(created).push(updated));
    lemma_lookup_push(m0, created, CREATED_AT@);
    lemma_lookup_push(m0.push(created), updated, CREATED_AT@);
    lemma_lookup_push(m0.push(created), updated, UPDATED_AT@);
    let o0 = Seq::<(Seq<char>, Option<Map<String, serde_json::Value>>)>::empty();
    assert(f.objects =~= o0.push((METADATA@, r.metadata)));
    lemma_lookup_push(o0, (METADATA@, r.metadata), METADATA@);
    assert(record_in(f) =~= Some(r));
}

/// Fields that hold the same under every name stand for the same record.
pub proof fn lemma_same_fields_same_record(a: StoredFieldsView, b: StoredFieldsView)
    requires
        same_fields(a, b),
    ensures
        record_in(a) == record_in(b),
{
    assert(lookup(a.texts, ID@) == lookup(b.texts, ID@));
    assert(lookup(a.texts, MIME_TYPE@) == lookup(b.texts, MIME_TYPE@));
    assert(lookup(a.texts, FILE_TYPE@) == lookup(b.texts, FILE_TYPE@));
    assert(lookup(a.texts, PERMALINK@) == lookup(b.texts, PERMALINK@));
    assert(lookup(a.texts, ALT@) == lookup(b.texts, ALT@));
    assert(lookup(a.texts, DESCRIPTION@) == lookup(b.texts, DESCRIPTION@));
    assert(lookup(a.texts, NAME@) == lookup(b.texts, NAME@));
    assert(lookup(a.texts, SUBJECT_ID@) == lookup(b.texts, SUBJECT_ID@));
    assert(lookup(a.counts, BYTE_SIZE@) == lookup(b.counts, BYTE_SIZE@));
    assert(lookup(a.times, CREATED_AT@) == lookup(b.times, CREATED_AT@));
    assert(lookup(a.times, UPDATED_AT@) == lookup(b.times, UPDATED_AT@));
    assert(lookup(a.objects, METADATA@) == lookup(b.objects, METADATA@));
}

/// A record that can be stored reads back, from the bytes that are written
/// for it, as itself.
pub proof fn lemma_storable_reads_back(r: FileRecordView, back: StoredFieldsView)
    requires
        fields_encoding(stored_fields(r)) matches Some(b) && fields_decoding(b) == Some(back),
        same_fields(back, stored_fields(r)),
    ensures
        decoded_record(fields_encoding(stored_fields(r))->0) == Some(r),
{
    lemma_same_fields_same_record(back, stored_fields(r));
    lemma_fields_hold_record(r);
}

/// What an optional optional text holds.
pub open spec fn nested_text_view(t: Option<Option<String>>) -> Option<Option<Seq<char>>> {
    match t {
        Some(v) => Some(text_view(v)),
        None => None,
    }
}

/// What an optional optional metadata map holds.
pub open spec fn nested_metadata_view(m: Option<Option<HashMap<String, serde_json::Value>>>) -> Option<
    Option<Map<String, serde_json::Value>>,
> {
    match m {
        Some(v) => Some(metadata_view(v)),
        None => None,
    }
}

/// The text under `name`, if the list has the name.
fn text_under(list: &Vec<(String, Option<String>)>, name: &str) -> (r: Option<Option<String>>)
    ensures
        nested_text_view(r) == lookup(texts_view(list@), name@),
{
    let ghost all = texts_view(list@);
    let mut found: Option<Option<String>> = None;
    let mut i: usize = 0;
    assert(all.take(0) =~= Seq::empty());
    while i < list.len()
        invariant
            i <= list.len(),
            all == texts_view(list@),
            nested_text_view(found) == lookup(all.take(i as int), name@),
        decreases list.len() - i,
    {
        proof {
            assert(all.take(i + 1).drop_last() =~= all.take(i as int));
            assert(all.take(i + 1).last() == all[i as int]);
        }
        if same_text(list[i].0.as_str(), name) {
            found = Some(copy_text(&list[i].1));
        }
        i += 1;
    }
    assert(all.take(list.len() as int) =~= all);
    found
}

/// The count under `name`, if the list has the name.
fn count_under(list: &Vec<(String, u64)>, name: &str) -> (r: Option<u64>)
    ensures
        r == lookup(counts_view(list@), name@),
{
    let ghost all = counts_view(list@);
    let mut found: Option<u64> = None;
    let mut i: usize = 0;
    assert(all.take(0) =~= Seq::empty());
    while i < list.len()
        invariant
            i <= list.len(),
            all == counts_view(list@),
            found == lookup(all.take(i as int), name@),
        decreases list.len() - i,
    {
        proof {
            assert(all.take(i + 1).drop_last() =~= all.take(i as int));
            assert(all.take(i + 1).last() == all[i as int]);
        }
        if same_text(list[i].0.as_str(), name) {
            found = Some(list[i].1);
        }
        i += 1;
    }
    assert(all.take(list.len() as int) =~= all);
    found
}

/// The time under `name`, if the list has the name.
fn time_under(list: &Vec<(String, (i64, u32))>, name: &str) -> (r: Option<(i64, u32)>)
    ensures
        r == lookup(times_view(list@), name@),
{
    let ghost all = times_view(list@);
    let mut found: Option<(i64, u32)> = None;
    let mut i: usize = 0;
    assert(all.take(0) =~= Seq::empty());
    while i < list.len()
        invariant
            i <= list.len(),
            all == times_view(list@),
            found == lookup(all.take(i as int), name@),
        decreases list.len() - i,
    {
        proof {
            assert(all.take(i + 1).drop_last() =~= all.take(i as int));
            assert(all.take(i + 1).last() == all[i as int]);
        }
        if same_text(list[i].0.as_str(), name) {
            found = Some(list[i].1);
        }
        i += 1;
    }
    assert(all.take(list.len() as int) =~= all);
    found
}

/// The object under `name`, if the list has the name.
fn object_under(list: &Vec<(String, Option<HashMap<String, serde_json::Value>>)>, name: &str) -> (r: Option<
    Option<HashMap<String, serde_json::Value>>,
>)
    ensures
        nested_metadata_view(r) == lookup(objects_view(list@), name@),
{
    let ghost all = objects_view(list@);
    let mut found: Option<Option<HashMap<String, serde_json::Value>>> = None;
    let mut i: usize = 0;
    assert(all.take(0) =~= Seq::empty());
    while i < list.len()
        invariant
            i <= list.len(),
            all == objects_view(list@),
            nested_metadata_view(found) == lookup(all.take(i as int), name@),
        decreases list.len() - i,
    {
        proof {
            assert(all.take(i + 1).drop_last() =~= all.take(i as int));
            assert(all.take(i + 1).last() == all[i as int]);
        }
        if same_text(list[i].0.as_str(), name) {
            found = Some(copy_metadata(&list[i].1));
        }
        i += 1;
    }
    assert(all.take(list.len() as int) =~= all);
    found
}

/// The error for a field that has to be there and is not.
fn missing(name: &str) -> (e: DatabaseError)
    ensures
        e is Deserialization,
{
    let words = join3("missing field `", name, "`");
    DatabaseError::Deserialization(decode_failure(words.as_str()))
}

/// The error for what cannot be written so that it reads back.
fn unreadable(what: &str) -> (e: DatabaseError)
    ensures
        e is Serialization,
{
    let words = join3("the stored form of the ", what, " does not read back");
    DatabaseError::Serialization(encode_failure(words.as_str()))
}

/// The text under `name`, which has to be there.
fn required_text(list: &Vec<(String, Option<String>)>, name: &str) -> (r: Result<String, DatabaseError>)
    ensures
        r matches Ok(s) ==> flat(lookup(texts_view(list@), name@)) == Some(s@),
        r matches Err(e) ==> e is Deserialization && flat(lookup(texts_view(list@), name@)) is None,
{
    match text_under(list, name) {
        Some(Some(s)) => Ok(s),
        _ => Err(missing(name)),
    }
}

/// The text under `name`, where there is one.
fn optional_text(list: &Vec<(String, Option<String>)>, name: &str) -> (r: Option<String>)
    ensures
        text_view(r) == flat(lookup(texts_view(list@), name@)),
{
    match text_under(list, name) {
        Some(Some(s)) => Some(s),
        _ => None,
    }
}

impl FileRecord {
    /// The fields under which this record is stored.
    pub fn fields(&self) -> (f: StoredFields)
        ensures
            f@ == stored_fields(self@),
    {
        let mut texts: Vec<(String, Option<String>)> = Vec::new();
        texts.push((ID.to_owned(), Some(self.id.clone())));
        texts.push((MIME_TYPE.to_owned(), Some(self.mime_type.clone())));
        texts.push((FILE_TYPE.to_owned(), Some(self.file_type.as_str().to_owned())));
        texts.push((PERMALINK.to_owned(), Some(self.permalink.clone())));
        texts.push((ALT.to_owned(), copy_text(&self.alt)));
        texts.push((DESCRIPTION.to_owned(), copy_text(&self.description)));
        texts.push((NAME.to_owned(), copy_text(&self.name)));
        texts.push((SUBJECT_ID.to_owned(), copy_text(&self.subject_id)));
        let mut counts: Vec<(String, u64)> = Vec::new();
        counts.push((BYTE_SIZE.to_owned(), self.byte_size));
        let mut times: Vec<(String, (i64, u32))> = Vec::new();
        times.push((CREATED_AT.to_owned(), (self.created_at.secs, self.created_at.nanos)));
        times.push((UPDATED_AT.to_owned(), (self.updated_at.secs, self.updated_at.nanos)));
        let mut objects: Vec<(String, Option<HashMap<String, serde_json::Value>>)> = Vec::new();
        objects.push((METADATA.to_owned(), copy_metadata(&self.metadata)));
        let f = StoredFields { texts, counts, times, objects };
        proof {
            let want = stored_fields(self@);
            assert(f@.texts =~= want.texts);
            assert(f@.counts =~= want.counts);
            assert(f@.times =~= want.times);
            assert(f@.objects =~= want.objects);
        }
        f
    }

    /// The record that stored fields stand for.
    pub fn from_fields(f: &StoredFields) -> (out: Result<FileRecord, DatabaseError>)
        ensures
            out matches Ok(r) ==> record_in(f@) == Some(r@),
            out matches Err(e) ==> e is Deserialization && record_in(f@) is None,
    {
        let id = required_text(&f.texts, ID)?;
        let mime_type = required_text(&f.texts, MIME_TYPE)?;
        let kind = required_text(&f.texts, FILE_TYPE)?;
        let file_type = match FileType::from_name(kind.as_str()) {
            Some(t) => t,
            None => {
                let words = join3("unknown file type `", kind.as_str(), "`");
                return Err(DatabaseError::Deserialization(decode_failure(words.as_str())));
            },
        };
        let byte_size = match count_under(&f.counts, BYTE_SIZE) {
            Some(n) => n,
            None => {
                return Err(missing(BYTE_SIZE));
            },
        };
        let permalink = required_text(&f.texts, PERMALINK)?;
        let created = match time_under(&f.times, CREATED_AT) {
            Some(t) => t,
            None => {
                return Err(missing(CREATED_AT));
            },
        };
        let updated = match time_under(&f.times, UPDATED_AT) {
            Some(t) => t,
            None => {
                return Err(missing(UPDATED_AT));
            },
        };
        let metadata = match object_under(&f.objects, METADATA) {
            Some(Some(m)) => Some(m),
            _ => None,
        };
        Ok(
            FileRecord {
                id,
                mime_type,
                file_type,
                byte_size,
                permalink,
                created_at: Timestamp { secs: created.0, nanos: created.1 },
                updated_at: Timestamp { secs: updated.0, nanos: updated.1 },
                alt: optional_text(&f.texts, ALT),
                description: optional_text(&f.texts, DESCRIPTION),
                metadata,
                name: optional_text(&f.texts, NAME),
                subject_id: optional_text(&f.texts, SUBJECT_ID),
            },
        )
    }

    /// The stored form of this record. It is there exactly for a record
    /// that can be stored, and then it is the bytes that the encoder writes
    /// for the record's fields, and they read back as the record.
    pub fn encode(&self) -> (out: Result<Vec<u8>, DatabaseError>)
        ensures
            out is Ok <==> storable(self@),
            out matches Ok(b) ==> fields_encoding(stored_fields(self@)) == Some(b@) && decoded_record(b@)
                == Some(self@),
            out matches Err(e) ==> e is Serialization,
    {
        let fields = self.fields();
        proof {
            lemma_stored_names_distinct(self@);
        }
        let bytes = match write_fields(&fields) {
            Ok(b) => b,
            Err(e) => {
                return Err(DatabaseError::Serialization(e));
            },
        };
        if bytes.len() as u64 > LONGEST {
            return Err(unreadable("record"));
        }
        match read_fields(bytes.as_slice()) {
            Ok(back) => {
                proof {
                    lemma_storable_reads_back(self@, back@);
                }
                Ok(bytes)
            },
            Err(_) => Err(unreadable("record")),
        }
    }

    /// Load a record from its stored form.
    pub fn decode(bytes: &[u8]) -> (out: Result<FileRecord, DatabaseError>)
        ensures
            out matches Ok(r) ==> decoded_record(bytes@) == Some(r@),
            out matches Err(e) ==> e is Deserialization && decoded_record(bytes@) is None,
    {
        let fields = match read_fields(bytes) {
            Ok(f) => f,
            Err(e) => {
                return Err(DatabaseError::Deserialization(e));
            },
        };
        FileRecord::from_fields(&fields)
    }
}

/// Whether two lists hold the same texts in the same order.
fn same_list(a: &Vec<String>, b: &Vec<String>) -> (r: bool)
    ensures
        r == (texts(a@) == texts(b@)),
{
    if a.len() != b.len() {
        assert(texts(a@).len() != texts(b@).len());
        return false;
    }
    let mut i: usize = 0;
    while i < a.len()
        invariant
            i <= a.len(),
            a.len() == b.len(),
            forall|j: int| 0 <= j < i ==> texts(a@)[j] == texts(b@)[j],
        decreases a.len() - i,
    {
        if !same_text(a[i].as_str(), b[i].as_str()) {
            assert(texts(a@)[i as int] != texts(b@)[i as int]);
            return false;
        }
        i += 1;
    }
    assert(texts(a@) =~= texts(b@));
    true
}

/// The stored form of a subject's id list. It is there exactly for a list
/// that can be stored, and then it is the bytes that the encoder writes for
/// the list, and they read back as the list.
pub fn encode_ids(ids: &Vec<String>) -> (out: Result<Vec<u8>, DatabaseError>)
    ensures
        out is Ok <==> list_storable(texts(ids@)),
        out matches Ok(b) ==> id_list_encoding(texts(ids@)) == Some(b@) && decoded_ids(b@) == Some(
            texts(ids@),
        ),
        out matches Err(e) ==> e is Serialization,
{
    let bytes = match write_id_list(ids) {
        Ok(b) => b,
        Err(e) => {
            return Err(DatabaseError::Serialization(e));
        },
    };
    match read_id_list(bytes.as_slice()) {
        Ok(back) => {
            if same_list(&back, ids) {
                Ok(bytes)
            } else {
                Err(unreadable("id list"))
            }
        },
        Err(_) => Err(unreadable("id list")),
    }
}

/// Load a subject's id list from its stored form.
pub fn decode_ids(bytes: &[u8]) -> (out: Result<Vec<String>, DatabaseError>)
    ensures
        out matches Ok(ids) ==> decoded_ids(bytes@) == Some(texts(ids@)),
        out matches Err(e) ==> e is Deserialization && decoded_ids(bytes@) is None,
{
    match read_id_list(bytes) {
        Ok(ids) => Ok(ids),
        Err(e) => Err(DatabaseError::Deserialization(e)),
    }
}

} // verus!
