use std::collections::{BTreeMap, HashMap};
use std::sync::atomic::{AtomicBool, AtomicI64, Ordering};
use std::sync::{Arc, RwLock};

use file_manager::db::Database;
use file_manager::error::DatabaseError;
use file_manager::models::{FileRecord, FileType, Timestamp};

/// Storage in memory that can be shared between two openings of a store
/// and told to fail.
#[derive(Debug, Clone, Default)]
struct Shaky {
    bytes: Arc<RwLock<Vec<u8>>>,
    fail_writes: Arc<AtomicBool>,
    reads_left: Arc<AtomicI64>,
}

impl Shaky {
    fn new() -> Self {
        let shaky = Shaky::default();
        shaky.reads_left.store(i64::MAX, Ordering::SeqCst);
        shaky
    }

    fn broken() -> std::io::Error {
        std::io::Error::new(std::io::ErrorKind::Other, "the disk is on fire")
    }
}

impl redb::StorageBackend for Shaky {
    fn len(&self) -> Result<u64, std::io::Error> {
        Ok(self.bytes.read().unwrap().len() as u64)
    }

    fn read(&self, offset: u64, len: usize) -> Result<Vec<u8>, std::io::Error> {
        if self.reads_left.fetch_sub(1, Ordering::SeqCst) <= 0 {
            return Err(Shaky::broken());
        }
        let bytes = self.bytes.read().unwrap();
        let offset = offset as usize;
        if offset + len <= bytes.len() {
            Ok(bytes[offset..offset + len].to_vec())
        } else {
            Err(std::io::Error::new(std::io::ErrorKind::InvalidInput, "out of range"))
        }
    }

    fn set_len(&self, len: u64) -> Result<(), std::io::Error> {
        if self.fail_writes.load(Ordering::SeqCst) {
            return Err(Shaky::broken());
        }
        self.bytes.write().unwrap().resize(len as usize, 0);
        Ok(())
    }

    fn sync_data(&self, _eventual: bool) -> Result<(), std::io::Error> {
        if self.fail_writes.load(Ordering::SeqCst) {
            return Err(Shaky::broken());
        }
        Ok(())
    }

    fn write(&self, offset: u64, data: &[u8]) -> Result<(), std::io::Error> {
        if self.fail_writes.load(Ordering::SeqCst) {
            return Err(Shaky::broken());
        }
        let mut bytes = self.bytes.write().unwrap();
        let offset = offset as usize;
        bytes[offset..offset + data.len()].copy_from_slice(data);
        Ok(())
    }
}

fn raw_store() -> redb::Database {
    redb::Database::builder()
        .create_with_backend(redb::backends::InMemoryBackend::new())
        .unwrap()
}

fn record(id: &str, permalink: &str, subject: Option<&str>) -> FileRecord {
    let at = Timestamp { secs: 10, nanos: 20 };
    FileRecord {
        id: id.to_string(),
        mime_type: "text/plain".to_string(),
        file_type: FileType::Document,
        byte_size: 1,
        permalink: permalink.to_string(),
        created_at: at,
        updated_at: at,
        alt: None,
        description: None,
        metadata: None,
        name: None,
        subject_id: subject.map(|s| s.to_string()),
    }
}

fn put_raw(store: &redb::Database, table: &str, key: &str, value: &[u8]) {
    let txn = store.begin_write().unwrap();
    {
        let mut t = txn
            .open_table(redb::TableDefinition::<&str, &[u8]>::new(table))
            .unwrap();
        t.insert(key, value).unwrap();
    }
    txn.commit().unwrap();
}

#[test]
fn unreadable_record_is_a_deserialization_error() {
    let store = raw_store();
    put_raw(&store, "files", "junk", &[0xc1, 0xff, 0x00]);
    let mut db = Database::open(store).unwrap();

    assert!(matches!(db.get_file("junk"), Err(DatabaseError::Deserialization(_))));
    assert!(matches!(db.get_all_files(), Err(DatabaseError::Deserialization(_))));
    assert!(matches!(db.list_files(None, None), Err(DatabaseError::Deserialization(_))));
    assert!(matches!(db.delete_file("junk"), Err(DatabaseError::Deserialization(_))));
    assert!(matches!(
        db.update_file("junk", Some(None), None, None, None, None, None),
        Err(DatabaseError::Deserialization(_))
    ));
    // nothing was changed by the operations that failed
    assert!(matches!(db.get_file("junk"), Err(DatabaseError::Deserialization(_))));
    assert!(db.get_file("other").unwrap().is_none());

    // a put writes over what cannot be read
    db.put_file(&record("junk", "j.txt", None)).unwrap();
    assert_eq!(db.get_file("junk").unwrap().unwrap().permalink, "j.txt");
    assert_eq!(db.purge_all().unwrap().files, 1);
}

#[test]
fn record_with_unknown_file_type_is_a_deserialization_error() {
    let store = raw_store();
    let stored = |id: &str, kind: &str| -> Vec<u8> {
        let mut texts: BTreeMap<&str, Option<String>> = BTreeMap::new();
        texts.insert("id", Some(id.to_string()));
        texts.insert("mime_type", Some("a/b".to_string()));
        texts.insert("file_type", Some(kind.to_string()));
        texts.insert("permalink", Some(format!("{id}.bin")));
        texts.insert("name", None);
        texts.insert("colour", Some("a field of some later day".to_string()));
        let mut counts: BTreeMap<&str, u64> = BTreeMap::new();
        counts.insert("byte_size", 1);
        counts.insert("pages", 7);
        let mut times: BTreeMap<&str, (i64, u32)> = BTreeMap::new();
        times.insert("created_at", (1_714_979_289, 500_000_000));
        times.insert("updated_at", (-1, 999_999_999));
        let objects: BTreeMap<&str, Option<HashMap<String, serde_json::Value>>> = BTreeMap::new();
        rmp_serde::to_vec_named(&(texts, counts, times, objects)).unwrap()
    };
    put_raw(&store, "files", "x", &stored("x", "spreadsheet"));
    put_raw(&store, "files", "y", &stored("y", "video"));
    let db = Database::open(store).unwrap();
    assert!(matches!(db.get_file("x"), Err(DatabaseError::Deserialization(_))));
    let y = db.get_file("y").unwrap().unwrap();
    assert_eq!(y.id, "y");
    assert_eq!(y.file_type, FileType::Video);
    assert_eq!(y.mime_type, "a/b");
    assert_eq!(y.byte_size, 1);
    assert_eq!(y.permalink, "y.bin");
    assert_eq!(y.created_at, Timestamp { secs: 1_714_979_289, nanos: 500_000_000 });
    assert_eq!(y.updated_at, Timestamp { secs: -1, nanos: 999_999_999 });
    assert_eq!(y.alt, None);
    assert_eq!(y.description, None);
    assert_eq!(y.metadata, None);
    assert_eq!(y.name, None);
    assert_eq!(y.subject_id, None);
}

#[test]
fn unreadable_subject_list_blocks_reads_and_removals_but_not_filing() {
    let store = raw_store();
    put_raw(&store, "subject_files", "u1", &[0xc1]);
    let mut db = Database::open(store).unwrap();

    assert!(matches!(db.get_files_by_subject("u1"), Err(DatabaseError::Deserialization(_))));
    assert!(matches!(db.list_files(None, Some("u1")), Err(DatabaseError::Deserialization(_))));

    // filing under the subject starts its list afresh
    db.put_file(&record("f1", "a.txt", Some("u1"))).unwrap();
    let listed = db.get_files_by_subject("u1").unwrap();
    assert_eq!(listed.len(), 1);
    assert_eq!(listed[0].id, "f1");

    // taking an id out from under a list that cannot be read fails, and
    // nothing of the operation stays
    let store = raw_store();
    let mut db = Database::open(store).unwrap();
    db.put_file(&record("f1", "a.txt", Some("u1"))).unwrap();
    let store = raw_store();
    put_raw(&store, "subject_files", "u1", &[0xc1]);
    let bytes = record("f1", "a.txt", Some("u1")).encode().unwrap();
    put_raw(&store, "files", "f1", &bytes);
    let mut broken = Database::open(store).unwrap();
    assert!(matches!(broken.delete_file("f1"), Err(DatabaseError::Deserialization(_))));
    assert_eq!(broken.get_file("f1").unwrap().unwrap().id, "f1");
    assert!(matches!(
        broken.update_file("f1", None, None, None, None, None, Some(None)),
        Err(DatabaseError::Deserialization(_))
    ));
    assert_eq!(broken.get_file("f1").unwrap().unwrap().subject_id, Some("u1".to_string()));
    // an update that leaves the subject alone does not look at the list
    assert!(broken.update_file("f1", Some(None), None, None, None, None, None).unwrap());
    assert!(db.delete_file("f1").unwrap());
}

#[test]
fn ids_without_a_record_are_passed_over() {
    let store = raw_store();
    let list = rmp_serde::to_vec_named(&vec!["ghost".to_string(), "f1".to_string()]).unwrap();
    put_raw(&store, "subject_files", "u1", &list);
    let mut db = Database::open(store).unwrap();
    assert!(db.get_files_by_subject("u1").unwrap().is_empty());
    db.put_file(&record("f1", "a.txt", Some("u1"))).unwrap();
    let listed = db.get_files_by_subject("u1").unwrap();
    assert_eq!(listed.len(), 1);
    assert_eq!(listed[0].id, "f1");
}

#[test]
fn dangling_permalink_resolves_to_nothing() {
    let store = raw_store();
    {
        let txn = store.begin_write().unwrap();
        {
            let mut t = txn
                .open_table(redb::TableDefinition::<&str, &str>::new("file_permalinks"))
                .unwrap();
            t.insert("lost.png", "nobody").unwrap();
        }
        txn.commit().unwrap();
    }
    let db = Database::open(store).unwrap();
    assert!(db.permalink_exists("lost.png").unwrap());
    assert!(db.get_file_by_permalink("lost.png").unwrap().is_none());
}

#[test]
fn table_of_another_type_is_a_table_error() {
    let store = raw_store();
    {
        let txn = store.begin_write().unwrap();
        {
            let mut t = txn
                .open_table(redb::TableDefinition::<u64, u64>::new("files"))
                .unwrap();
            t.insert(1, 2).unwrap();
        }
        txn.commit().unwrap();
    }
    match Database::open(store) {
        Err(e) => {
            assert!(matches!(e, DatabaseError::Table(_)));
            assert!(e.message().starts_with("Table error: "));
            assert!(e.message().len() > "Table error: ".len());
        }
        Ok(_) => panic!("opened"),
    }
}

#[test]
fn metadata_too_deep_to_read_back_is_refused() {
    let mut db = Database::open(raw_store()).unwrap();
    let mut deep = serde_json::Value::Null;
    for _ in 0..1100 {
        deep = serde_json::Value::Array(vec![deep]);
    }
    let mut meta = HashMap::new();
    meta.insert("deep".to_string(), deep);
    let mut file = record("f1", "a.txt", Some("u1"));
    file.metadata = Some(meta);
    let refused = db.put_file(&file).unwrap_err();
    assert!(matches!(refused, DatabaseError::Serialization(_)));
    assert!(refused.message().contains("the stored form of the record does not read back"));
    assert!(db.get_file("f1").unwrap().is_none());
    assert!(!db.permalink_exists("a.txt").unwrap());
    assert!(db.get_files_by_subject("u1").unwrap().is_empty());
    // take the value apart level by level, so that dropping it stays shallow
    let mut rest = file.metadata.take().unwrap().remove("deep").unwrap();
    while let serde_json::Value::Array(mut inner) = rest {
        rest = inner.pop().unwrap();
    }
}

#[test]
fn failing_storage_gives_commit_then_transaction_errors() {
    let shaky = Shaky::new();
    let store = redb::Database::builder().create_with_backend(shaky.clone()).unwrap();
    let mut db = Database::open(store).unwrap();
    db.put_file(&record("f1", "a.txt", None)).unwrap();

    shaky.fail_writes.store(true, Ordering::SeqCst);
    let failed = db.put_file(&record("f2", "b.txt", None)).unwrap_err();
    assert!(matches!(failed, DatabaseError::Commit(_)));
    assert!(failed.message().starts_with("Commit error: "));
    let failed = db.put_file(&record("f3", "c.txt", None)).unwrap_err();
    assert!(matches!(failed, DatabaseError::Transaction(_)));
    assert!(failed.message().starts_with("Transaction error: "));
    assert!(matches!(
        db.update_file("nobody", Some(None), None, None, None, None, None),
        Err(DatabaseError::Transaction(_))
    ));
    assert!(matches!(db.delete_file("f1"), Err(DatabaseError::Transaction(_))));
    assert!(matches!(db.purge_all(), Err(DatabaseError::Transaction(_))));
    shaky.fail_writes.store(false, Ordering::SeqCst);
}

#[test]
fn failing_read_gives_a_storage_error() {
    let shaky = Shaky::new();
    {
        let store = redb::Database::builder().create_with_backend(shaky.clone()).unwrap();
        let mut db = Database::open(store).unwrap();
        for i in 0..200 {
            let id = format!("file-{i}");
            let permalink = format!("p/{i}.txt");
            db.put_file(&record(&id, &permalink, Some("u1"))).unwrap();
        }
    }
    let mut seen_storage = false;
    let mut seen_ok = false;
    for allowed in 0..200 {
        shaky.reads_left.store(i64::MAX, Ordering::SeqCst);
        let store = match redb::Database::builder()
            .set_cache_size(0)
            .create_with_backend(shaky.clone())
        {
            Ok(store) => store,
            Err(_) => continue,
        };
        let db = match Database::open(store) {
            Ok(db) => db,
            Err(_) => continue,
        };
        shaky.reads_left.store(allowed, Ordering::SeqCst);
        match db.get_all_files() {
            Ok(files) => {
                assert_eq!(files.len(), 200);
                seen_ok = true;
            }
            Err(DatabaseError::Storage(_)) => seen_storage = true,
            Err(DatabaseError::Table(_)) | Err(DatabaseError::Transaction(_)) => {}
            Err(other) => panic!("unexpected error: {}", other.message()),
        }
        shaky.reads_left.store(i64::MAX, Ordering::SeqCst);
        if seen_storage && seen_ok {
            break;
        }
    }
    assert!(seen_storage);
}

type StoredTables = (
    BTreeMap<String, Option<String>>,
    BTreeMap<String, u64>,
    BTreeMap<String, (i64, u32)>,
    BTreeMap<String, Option<HashMap<String, serde_json::Value>>>,
);

#[test]
fn records_are_stored_under_field_names() {
    let mut file = record("f1", "a.txt", Some("u1"));
    file.created_at = Timestamp { secs: 1_714_979_289, nanos: 500_000_000 };
    file.updated_at = Timestamp { secs: 1_714_979_290, nanos: 0 };
    file.alt = Some("alt".to_string());
    let mut meta = HashMap::new();
    meta.insert("w".to_string(), serde_json::Value::from(3));
    file.metadata = Some(meta);
    let bytes = file.encode().unwrap();
    let (texts, counts, times, objects): StoredTables = rmp_serde::from_slice(&bytes).unwrap();
    let names: Vec<&str> = texts.keys().map(|k| k.as_str()).collect();
    assert_eq!(
        names,
        vec!["alt", "description", "file_type", "id", "mime_type", "name", "permalink", "subject_id"]
    );
    assert_eq!(texts["id"], Some("f1".to_string()));
    assert_eq!(texts["mime_type"], Some("text/plain".to_string()));
    assert_eq!(texts["file_type"], Some("document".to_string()));
    assert_eq!(texts["permalink"], Some("a.txt".to_string()));
    assert_eq!(texts["alt"], Some("alt".to_string()));
    assert_eq!(texts["description"], None);
    assert_eq!(texts["name"], None);
    assert_eq!(texts["subject_id"], Some("u1".to_string()));
    assert_eq!(counts.len(), 1);
    assert_eq!(counts["byte_size"], 1);
    assert_eq!(times.len(), 2);
    assert_eq!(times["created_at"], (1_714_979_289, 500_000_000));
    assert_eq!(times["updated_at"], (1_714_979_290, 0));
    assert_eq!(objects.len(), 1);
    assert_eq!(objects["metadata"].as_ref().unwrap()["w"], serde_json::Value::from(3));

    let fields = file.fields();
    assert_eq!(fields.texts.len(), 8);
    assert_eq!(fields.texts[0], ("id".to_string(), Some("f1".to_string())));
    assert_eq!(fields.texts[2], ("file_type".to_string(), Some("document".to_string())));
    assert_eq!(fields.counts, vec![("byte_size".to_string(), 1)]);
    assert_eq!(fields.times[1], ("updated_at".to_string(), (1_714_979_290, 0)));
    let again = FileRecord::from_fields(&fields).unwrap();
    assert_eq!(again.id, "f1");
    assert_eq!(again.alt, file.alt);
    assert_eq!(again.metadata, file.metadata);

    let back = FileRecord::decode(&bytes).unwrap();
    assert_eq!(back.id, file.id);
    assert_eq!(back.file_type, file.file_type);
    assert_eq!(back.created_at, file.created_at);
    assert_eq!(back.updated_at, file.updated_at);
    assert_eq!(back.metadata, file.metadata);
    assert!(matches!(FileRecord::decode(&bytes[..bytes.len() - 1]), Err(DatabaseError::Deserialization(_))));
    assert!(matches!(FileRecord::decode(&[]), Err(DatabaseError::Deserialization(_))));
}

#[test]
fn fields_are_found_by_name() {
    let full = record("f1", "a.txt", Some("u1")).fields();

    // the later of two entries under one name counts
    let mut twice = record("f1", "a.txt", Some("u1")).fields();
    twice.texts.push(("permalink".to_string(), Some("b.txt".to_string())));
    twice.counts.push(("byte_size".to_string(), 9));
    twice.texts.insert(0, ("id".to_string(), Some("f0".to_string())));
    let read = FileRecord::from_fields(&twice).unwrap();
    assert_eq!(read.permalink, "b.txt");
    assert_eq!(read.byte_size, 9);
    assert_eq!(read.id, "f1");

    // a field that has to be there
    for name in ["id", "mime_type", "file_type", "permalink"] {
        let mut fields = record("f1", "a.txt", Some("u1")).fields();
        fields.texts.retain(|e| e.0 != name);
        let e = FileRecord::from_fields(&fields).unwrap_err();
        assert!(matches!(e, DatabaseError::Deserialization(_)));
        assert!(e.message().contains(&format!("missing field `{name}`")));
        let mut fields = record("f1", "a.txt", Some("u1")).fields();
        fields.texts.push((name.to_string(), None));
        assert!(FileRecord::from_fields(&fields).is_err());
    }
    let mut fields = record("f1", "a.txt", None).fields();
    fields.counts.clear();
    assert!(FileRecord::from_fields(&fields).unwrap_err().message().contains("missing field `byte_size`"));
    for name in ["created_at", "updated_at"] {
        let mut fields = record("f1", "a.txt", None).fields();
        fields.times.retain(|e| e.0 != name);
        assert!(FileRecord::from_fields(&fields).unwrap_err().message().contains(name));
    }
    let mut fields = record("f1", "a.txt", None).fields();
    fields.texts[2].1 = Some("spreadsheet".to_string());
    let e = FileRecord::from_fields(&fields).unwrap_err();
    assert!(e.message().contains("unknown file type `spreadsheet`"));

    // a field that may be missing
    let mut fields = record("f1", "a.txt", Some("u1")).fields();
    fields.texts.retain(|e| e.0 != "subject_id" && e.0 != "alt");
    fields.objects.clear();
    let read = FileRecord::from_fields(&fields).unwrap();
    assert_eq!(read.subject_id, None);
    assert_eq!(read.alt, None);
    assert_eq!(read.metadata, None);
    assert_eq!(FileRecord::from_fields(&full).unwrap().subject_id, Some("u1".to_string()));
}

#[test]
fn id_lists_are_stored_as_lists_of_texts() {
    let store = raw_store();
    let mut db = Database::open(store).unwrap();
    db.put_file(&record("f1", "a.txt", Some("u1"))).unwrap();
    db.put_file(&record("f2", "b.txt", Some("u1"))).unwrap();
    let read = db.inner().begin_read().unwrap();
    let table = read
        .open_table(redb::TableDefinition::<&str, &[u8]>::new("subject_files"))
        .unwrap();
    let stored = redb::ReadableTable::get(&table, "u1").unwrap().unwrap();
    let ids: Vec<String> = rmp_serde::from_slice(stored.value()).unwrap();
    assert_eq!(ids, vec!["f1", "f2"]);
    let links = read
        .open_table(redb::TableDefinition::<&str, &str>::new("file_permalinks"))
        .unwrap();
    assert_eq!(redb::ReadableTable::get(&links, "b.txt").unwrap().unwrap().value(), "f2");
}

#[test]
fn an_unknown_id_meets_no_stored_value() {
    // a store whose every other entry cannot be read
    let store = raw_store();
    put_raw(&store, "files", "junk", &[0xc1]);
    put_raw(&store, "subject_files", "u1", &[0xc1]);
    let mut db = Database::open(store).unwrap();
    assert!(!db.update_file("nobody", Some(None), None, None, None, None, Some(Some("u1"))).unwrap());
    assert!(!db.delete_file("nobody").unwrap());
    assert!(db.get_file("nobody").unwrap().is_none());
    // the store that is handed out is the one that the repository reads
    let read = db.inner().begin_read().unwrap();
    let table = read
        .open_table(redb::TableDefinition::<&str, &[u8]>::new("files"))
        .unwrap();
    assert_eq!(redb::ReadableTable::get(&table, "junk").unwrap().unwrap().value(), &[0xc1]);
    assert_eq!(db.purge_all().unwrap().files, 1);
}

#[test]
fn errors_have_words() {
    let store = raw_store();
    put_raw(&store, "files", "junk", &[0xc1]);
    let db = Database::open(store).unwrap();
    let message = db.get_file("junk").unwrap_err().message();
    assert!(message.starts_with("Deserialization error: "));
    assert!(message.len() > "Deserialization error: ".len());
}
