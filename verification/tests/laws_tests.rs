use std::collections::{BTreeMap, BTreeSet, HashMap};

use file_manager::db::Database;
use file_manager::models::{FileRecord, FileType, Patch, Timestamp, WriteOp};
use file_manager::state_machine::FileStateMachine;

fn empty_db() -> Database {
    let store = redb::Database::builder()
        .create_with_backend(redb::backends::InMemoryBackend::new())
        .unwrap();
    Database::open(store).unwrap()
}

fn record(id: &str, permalink: &str, subject: Option<&str>) -> FileRecord {
    let at = Timestamp { secs: 1_700_000_000, nanos: 123_456_789 };
    FileRecord {
        id: id.to_string(),
        mime_type: "image/png".to_string(),
        file_type: FileType::Image,
        byte_size: 7,
        permalink: permalink.to_string(),
        created_at: at,
        updated_at: at,
        alt: None,
        description: None,
        metadata: None,
        name: None,
        subject_id: subject.map(|s| s.to_string()),
    }
}

fn ids(files: &[FileRecord]) -> Vec<String> {
    files.iter().map(|f| f.id.clone()).collect()
}

/// Both indexes are an exact function of the records, as far as the public
/// reads can tell: every record is found under its permalink, every
/// candidate permalink without a record is unknown, and every candidate
/// subject lists exactly the records that name it, each once.
fn assert_indexes_exact(db: &Database, permalinks: &[&str], subjects: &[&str]) {
    let all = db.get_all_files().unwrap();
    let mut by_permalink: BTreeMap<String, String> = BTreeMap::new();
    for f in &all {
        assert!(by_permalink.insert(f.permalink.clone(), f.id.clone()).is_none());
        let found = db.get_file_by_permalink(&f.permalink).unwrap().unwrap();
        assert_eq!(found.id, f.id);
        assert!(db.permalink_exists(&f.permalink).unwrap());
    }
    for p in permalinks {
        if !by_permalink.contains_key(*p) {
            assert!(!db.permalink_exists(p).unwrap());
            assert!(db.get_file_by_permalink(p).unwrap().is_none());
        }
    }
    for s in subjects {
        let listed = ids(&db.get_files_by_subject(s).unwrap());
        let unique: BTreeSet<String> = listed.iter().cloned().collect();
        assert_eq!(unique.len(), listed.len());
        let expected: BTreeSet<String> = all
            .iter()
            .filter(|f| f.subject_id.as_deref() == Some(*s))
            .map(|f| f.id.clone())
            .collect();
        assert_eq!(unique, expected);
    }
}

#[test]
fn indexes_stay_exact_through_a_history() {
    let permalinks = ["a.png", "b.png", "c.png", "d.png", "e.png"];
    let subjects = ["u1", "u2", "u3"];
    let mut db = empty_db();
    assert_indexes_exact(&db, &permalinks, &subjects);

    db.put_file(&record("f1", "a.png", Some("u1"))).unwrap();
    assert_indexes_exact(&db, &permalinks, &subjects);
    db.put_file(&record("f2", "b.png", Some("u1"))).unwrap();
    assert_indexes_exact(&db, &permalinks, &subjects);
    db.put_file(&record("f3", "c.png", None)).unwrap();
    assert_indexes_exact(&db, &permalinks, &subjects);

    // the same record again: nothing is filed twice
    db.put_file(&record("f2", "b.png", Some("u1"))).unwrap();
    assert_indexes_exact(&db, &permalinks, &subjects);
    assert_eq!(ids(&db.get_files_by_subject("u1").unwrap()), vec!["f1", "f2"]);

    assert!(db.update_file("f1", None, None, None, None, Some("d.png"), Some(Some("u2"))).unwrap());
    assert_indexes_exact(&db, &permalinks, &subjects);
    assert!(db.update_file("f3", None, None, None, None, None, Some(Some("u2"))).unwrap());
    assert_indexes_exact(&db, &permalinks, &subjects);
    assert_eq!(ids(&db.get_files_by_subject("u2").unwrap()), vec!["f1", "f3"]);
    assert!(db.update_file("f2", None, None, None, None, None, Some(None)).unwrap());
    assert_indexes_exact(&db, &permalinks, &subjects);
    assert!(db.get_files_by_subject("u1").unwrap().is_empty());

    assert!(db.delete_file("f1").unwrap());
    assert_indexes_exact(&db, &permalinks, &subjects);
    assert!(db.delete_file("f3").unwrap());
    assert_indexes_exact(&db, &permalinks, &subjects);
    assert!(db.delete_file("f2").unwrap());
    assert_indexes_exact(&db, &permalinks, &subjects);
    assert!(db.get_all_files().unwrap().is_empty());
}

#[test]
fn put_then_get_returns_the_record_written() {
    let mut db = empty_db();
    let mut written = record("f1", "a.png", Some("u1"));
    written.alt = Some("alt".to_string());
    written.description = Some("words".to_string());
    written.name = Some("n".to_string());
    written.byte_size = u64::MAX;
    written.created_at = Timestamp { secs: i64::MIN, nanos: 999_999_999 };
    written.updated_at = Timestamp { secs: i64::MAX, nanos: u32::MAX };
    let mut meta = HashMap::new();
    meta.insert("k".to_string(), serde_json::Value::from(-3));
    written.metadata = Some(meta);
    db.put_file(&written).unwrap();

    for read in [
        db.get_file("f1").unwrap().unwrap(),
        db.get_file_by_permalink("a.png").unwrap().unwrap(),
    ] {
        assert_eq!(read.id, written.id);
        assert_eq!(read.mime_type, written.mime_type);
        assert_eq!(read.file_type, written.file_type);
        assert_eq!(read.byte_size, written.byte_size);
        assert_eq!(read.permalink, written.permalink);
        assert_eq!(read.created_at, written.created_at);
        assert_eq!(read.updated_at, written.updated_at);
        assert_eq!(read.alt, written.alt);
        assert_eq!(read.description, written.description);
        assert_eq!(read.metadata, written.metadata);
        assert_eq!(read.name, written.name);
        assert_eq!(read.subject_id, written.subject_id);
    }
}

#[test]
fn second_delete_finds_nothing_and_changes_nothing() {
    let mut db = empty_db();
    db.put_file(&record("f1", "a.png", Some("u1"))).unwrap();
    db.put_file(&record("f2", "b.png", Some("u1"))).unwrap();

    assert!(db.delete_file("f1").unwrap());
    assert!(db.get_file("f1").unwrap().is_none());
    let before = ids(&db.get_all_files().unwrap());

    assert!(!db.delete_file("f1").unwrap());
    assert_eq!(ids(&db.get_all_files().unwrap()), before);
    assert!(db.permalink_exists("b.png").unwrap());
    assert!(!db.permalink_exists("a.png").unwrap());
    assert_eq!(ids(&db.get_files_by_subject("u1").unwrap()), vec!["f2"]);
}

fn patched(field: &str, patch: Option<Option<&str>>) -> FileRecord {
    let mut db = empty_db();
    let mut start = record("f1", "a.png", Some("was"));
    start.alt = Some("was".to_string());
    start.description = Some("was".to_string());
    start.name = Some("was".to_string());
    db.put_file(&start).unwrap();
    let pick = |name: &str| if name == field { patch } else { None };
    assert!(db
        .update_file("f1", pick("alt"), pick("description"), None, pick("name"), None, pick("subject_id"))
        .unwrap());
    db.get_file("f1").unwrap().unwrap()
}

fn field_of(r: &FileRecord, field: &str) -> Option<String> {
    match field {
        "alt" => r.alt.clone(),
        "description" => r.description.clone(),
        "name" => r.name.clone(),
        _ => r.subject_id.clone(),
    }
}

#[test]
fn each_text_field_follows_its_own_patch() {
    for field in ["alt", "description", "name", "subject_id"] {
        let absent = patched(field, None);
        let cleared = patched(field, Some(None));
        let set = patched(field, Some(Some("new")));
        for other in ["alt", "description", "name", "subject_id"] {
            let was = Some("was".to_string());
            assert_eq!(field_of(&absent, other), was);
            if other == field {
                assert_eq!(field_of(&cleared, other), None);
                assert_eq!(field_of(&set, other), Some("new".to_string()));
            } else {
                assert_eq!(field_of(&cleared, other), was);
                assert_eq!(field_of(&set, other), was);
            }
        }
    }
}

#[test]
fn metadata_follows_its_own_patch() {
    let mut db = empty_db();
    let mut start = record("f1", "a.png", None);
    let mut was = HashMap::new();
    was.insert("k".to_string(), serde_json::Value::from("was"));
    start.metadata = Some(was.clone());
    db.put_file(&start).unwrap();

    db.update_file("f1", Some(Some("x")), None, None, None, None, None).unwrap();
    assert_eq!(db.get_file("f1").unwrap().unwrap().metadata, Some(was));

    let mut new = HashMap::new();
    new.insert("k".to_string(), serde_json::Value::from(2));
    db.update_file("f1", None, None, Some(Some(&new)), None, None, None).unwrap();
    assert_eq!(db.get_file("f1").unwrap().unwrap().metadata, Some(new));

    db.update_file("f1", None, None, Some(None), None, None, None).unwrap();
    assert_eq!(db.get_file("f1").unwrap().unwrap().metadata, None);
}

#[test]
fn patch_reads_as_nested_option() {
    let absent: Patch<String> = Patch::from(None);
    let null: Patch<String> = Patch::from(Some(None));
    let value: Patch<String> = Patch::from(Some(Some("v".to_string())));
    assert_eq!(absent, Patch::Absent);
    assert_eq!(null, Patch::Null);
    assert_eq!(value, Patch::Value("v".to_string()));
    assert_eq!(absent.as_option(), None);
    assert_eq!(null.as_option(), Some(None));
    assert_eq!(value.as_option(), Some(Some(&"v".to_string())));
    assert!(absent.is_absent());
    assert!(!null.is_absent());
    assert!(!value.is_absent());
    assert_eq!(Patch::<String>::default(), Patch::Absent);
}

#[test]
fn update_stamps_the_time_and_keeps_the_rest() {
    let mut db = empty_db();
    db.put_file(&record("f1", "a.png", None)).unwrap();
    let at = Timestamp { secs: 42, nanos: 7 };
    assert!(db
        .update_file_at("f1", Some(Some("x")), None, None, None, None, None, at)
        .unwrap());
    let read = db.get_file("f1").unwrap().unwrap();
    assert_eq!(read.updated_at, at);
    assert_eq!(read.created_at, Timestamp { secs: 1_700_000_000, nanos: 123_456_789 });
    assert_eq!(read.id, "f1");
    assert_eq!(read.mime_type, "image/png");
    assert_eq!(read.file_type, FileType::Image);
    assert_eq!(read.byte_size, 7);

    let before = Timestamp::now();
    assert!(db.update_file("f1", None, None, None, Some(Some("n")), None, None).unwrap());
    let after = Timestamp::now();
    let stamped = db.get_file("f1").unwrap().unwrap().updated_at;
    assert!((before.secs, before.nanos) <= (stamped.secs, stamped.nanos));
    assert!((stamped.secs, stamped.nanos) <= (after.secs, after.nanos));
}

#[test]
fn update_moves_permalink_and_subject() {
    let mut db = empty_db();
    db.put_file(&record("f1", "old.png", Some("u1"))).unwrap();
    db.put_file(&record("f2", "keep.png", Some("u1"))).unwrap();

    db.update_file("f1", None, None, None, None, Some("new.png"), Some(Some("u2"))).unwrap();

    assert!(db.get_file_by_permalink("old.png").unwrap().is_none());
    assert_eq!(db.get_file_by_permalink("new.png").unwrap().unwrap().id, "f1");
    assert_eq!(ids(&db.get_files_by_subject("u1").unwrap()), vec!["f2"]);
    assert_eq!(ids(&db.get_files_by_subject("u2").unwrap()), vec!["f1"]);

    // the record's own permalink and subject given again change nothing
    db.update_file("f1", None, None, None, None, Some("new.png"), Some(Some("u2"))).unwrap();
    assert_eq!(db.get_file_by_permalink("new.png").unwrap().unwrap().id, "f1");
    assert_eq!(ids(&db.get_files_by_subject("u2").unwrap()), vec!["f1"]);
}

#[test]
fn put_takes_over_a_permalink_that_another_record_holds() {
    let mut db = empty_db();
    db.put_file(&record("f1", "same.png", None)).unwrap();
    db.put_file(&record("f2", "same.png", None)).unwrap();
    assert_eq!(db.get_file_by_permalink("same.png").unwrap().unwrap().id, "f2");
    assert_eq!(db.get_all_files().unwrap().len(), 2);
}

#[test]
fn snapshot_then_restore_reproduces_records_and_indexes() {
    let mut source = FileStateMachine::new(empty_db());
    for op in [
        WriteOp::CreateFile(record("f3", "c.png", Some("u1"))),
        WriteOp::CreateFile(record("f1", "a.png", Some("u1"))),
        WriteOp::CreateFile(record("f2", "b.png", Some("u2"))),
        WriteOp::CreateFile(record("f4", "d.png", None)),
        WriteOp::UpdateFile {
            id: "f4".to_string(),
            alt: Patch::Value("alt".to_string()),
            description: Patch::Absent,
            metadata: Patch::Absent,
            name: Patch::Null,
            permalink: Some("e.png".to_string()),
            subject_id: Patch::Value("u2".to_string()),
            updated_at: Timestamp { secs: 77, nanos: 7 },
        },
        WriteOp::DeleteFile { id: "f2".to_string() },
    ] {
        source.apply(&op).unwrap();
    }
    let snapshot = source.snapshot().unwrap();
    assert_eq!(snapshot.files.len(), 3);

    let mut target = FileStateMachine::new(empty_db());
    target.restore(snapshot).unwrap();

    let from = source.database();
    let to = target.database();
    let mut a = from.get_all_files().unwrap();
    let mut b = to.get_all_files().unwrap();
    a.sort_by(|x, y| x.id.cmp(&y.id));
    b.sort_by(|x, y| x.id.cmp(&y.id));
    assert_eq!(ids(&a), ids(&b));
    for (x, y) in a.iter().zip(b.iter()) {
        assert_eq!(x.permalink, y.permalink);
        assert_eq!(x.subject_id, y.subject_id);
        assert_eq!(x.alt, y.alt);
        assert_eq!(x.updated_at, y.updated_at);
    }
    for p in ["a.png", "b.png", "c.png", "d.png", "e.png"] {
        let x = from.get_file_by_permalink(p).unwrap().map(|f| f.id);
        let y = to.get_file_by_permalink(p).unwrap().map(|f| f.id);
        assert_eq!(x, y);
    }
    for s in ["u1", "u2", "u3"] {
        let x: BTreeSet<String> = ids(&from.get_files_by_subject(s).unwrap()).into_iter().collect();
        let y: BTreeSet<String> = ids(&to.get_files_by_subject(s).unwrap()).into_iter().collect();
        assert_eq!(x, y);
    }
    assert_indexes_exact(to, &["a.png", "b.png", "c.png", "d.png", "e.png"], &["u1", "u2", "u3"]);
}

#[test]
fn subject_scenario() {
    let mut db = empty_db();
    db.put_file(&record("f1", "a.png", Some("u1"))).unwrap();
    assert_eq!(ids(&db.get_files_by_subject("u1").unwrap()), vec!["f1"]);

    db.update_file("f1", None, None, None, None, None, Some(Some("u2"))).unwrap();
    assert!(db.get_files_by_subject("u1").unwrap().is_empty());
    assert_eq!(ids(&db.get_files_by_subject("u2").unwrap()), vec!["f1"]);

    assert!(db.delete_file("f1").unwrap());
    assert!(db.get_files_by_subject("u2").unwrap().is_empty());

    // the key itself is gone from the subject index
    let store = redb::Database::builder()
        .create_with_backend(redb::backends::InMemoryBackend::new())
        .unwrap();
    let mut db = Database::open(store).unwrap();
    db.put_file(&record("f1", "a.png", Some("u1"))).unwrap();
    db.update_file("f1", None, None, None, None, None, Some(Some("u2"))).unwrap();
    db.delete_file("f1").unwrap();
    let read = db.inner().begin_read().unwrap();
    let table = read
        .open_table(redb::TableDefinition::<&str, &[u8]>::new("subject_files"))
        .unwrap();
    assert!(redb::ReadableTable::get(&table, "u1").unwrap().is_none());
    assert!(redb::ReadableTable::get(&table, "u2").unwrap().is_none());
    assert_eq!(redb::ReadableTableMetadata::len(&table).unwrap(), 0);
}

#[test]
fn permalink_scenario() {
    let mut db = empty_db();
    assert!(!db.permalink_exists("x").unwrap());
    db.put_file(&record("f1", "x", None)).unwrap();
    assert!(db.permalink_exists("x").unwrap());
    assert!(db.delete_file("f1").unwrap());
    assert!(!db.permalink_exists("x").unwrap());
}

#[test]
fn apply_runs_each_kind_of_operation() {
    let mut machine = FileStateMachine::new(empty_db());
    machine
        .apply(&WriteOp::CreateFile(record("f1", "a.png", Some("u1"))))
        .unwrap();
    assert_eq!(machine.database().get_file("f1").unwrap().unwrap().permalink, "a.png");

    let at = Timestamp { secs: 9, nanos: 1 };
    machine
        .apply(&WriteOp::UpdateFile {
            id: "f1".to_string(),
            alt: Patch::Value("a".to_string()),
            description: Patch::Null,
            metadata: Patch::Absent,
            name: Patch::Absent,
            permalink: None,
            subject_id: Patch::Null,
            updated_at: at,
        })
        .unwrap();
    let read = machine.database().get_file("f1").unwrap().unwrap();
    assert_eq!(read.alt, Some("a".to_string()));
    assert_eq!(read.subject_id, None);
    assert_eq!(read.updated_at, at);
    assert!(machine.database().get_files_by_subject("u1").unwrap().is_empty());

    // an operation on an unknown id applies without a change
    machine.apply(&WriteOp::DeleteFile { id: "nope".to_string() }).unwrap();
    assert_eq!(machine.database().get_all_files().unwrap().len(), 1);

    machine.apply(&WriteOp::DeleteFile { id: "f1".to_string() }).unwrap();
    assert!(machine.database().get_all_files().unwrap().is_empty());
}

#[test]
fn purge_empties_the_store_of_this_node() {
    let mut machine = FileStateMachine::new(empty_db());
    machine.apply(&WriteOp::CreateFile(record("f1", "a.png", Some("u1")))).unwrap();
    machine.apply(&WriteOp::CreateFile(record("f2", "b.png", Some("u1")))).unwrap();
    machine.apply(&WriteOp::CreateFile(record("f3", "c.png", None))).unwrap();
    assert_eq!(machine.purge().unwrap().files, 3);
    assert!(machine.database().get_all_files().unwrap().is_empty());
    assert!(!machine.database().permalink_exists("a.png").unwrap());
    assert!(machine.database().get_files_by_subject("u1").unwrap().is_empty());
    assert_eq!(machine.purge().unwrap().files, 0);
}

#[test]
fn listing_comes_in_the_order_of_the_ids() {
    let mut db = empty_db();
    for (id, permalink) in [("b", "1"), ("a/", "2"), ("ab", "3"), ("a", "4"), ("é", "5"), ("B", "6"), ("", "7")] {
        db.put_file(&record(id, permalink, None)).unwrap();
    }
    assert_eq!(ids(&db.get_all_files().unwrap()), vec!["", "B", "a", "a/", "ab", "b", "é"]);
    assert_eq!(ids(&db.list_files(Some("image"), None).unwrap()), vec!["", "B", "a", "a/", "ab", "b", "é"]);
}

#[test]
fn same_history_gives_the_same_state() {
    let history = [
        WriteOp::CreateFile(record("f1", "a.png", Some("u1"))),
        WriteOp::CreateFile(record("f2", "b.png", Some("u1"))),
        WriteOp::UpdateFile {
            id: "f1".to_string(),
            alt: Patch::Absent,
            description: Patch::Absent,
            metadata: Patch::Absent,
            name: Patch::Absent,
            permalink: Some("c.png".to_string()),
            subject_id: Patch::Value("u2".to_string()),
            updated_at: Timestamp { secs: 1, nanos: 2 },
        },
        WriteOp::DeleteFile { id: "f2".to_string() },
    ];
    let mut one = FileStateMachine::new(empty_db());
    let mut two = FileStateMachine::new(empty_db());
    for op in &history {
        one.apply(op).unwrap();
        two.apply(op).unwrap();
    }
    let a = one.snapshot().unwrap().files;
    let b = two.snapshot().unwrap().files;
    assert_eq!(ids(&a), vec!["f1"]);
    assert_eq!(ids(&a), ids(&b));
    assert_eq!(a[0].permalink, b[0].permalink);
    assert_eq!(a[0].subject_id, b[0].subject_id);
    assert_eq!(a[0].updated_at, Timestamp { secs: 1, nanos: 2 });
    assert_eq!(a[0].updated_at, b[0].updated_at);
}

/// How many entries the three tables hold: records, permalinks, subjects.
fn table_sizes(db: &Database) -> (u64, u64, u64) {
    let read = db.inner().begin_read().unwrap();
    let files = read.open_table(redb::TableDefinition::<&str, &[u8]>::new("files")).unwrap();
    let permalinks = read
        .open_table(redb::TableDefinition::<&str, &str>::new("file_permalinks"))
        .unwrap();
    let subjects = read
        .open_table(redb::TableDefinition::<&str, &[u8]>::new("subject_files"))
        .unwrap();
    (
        redb::ReadableTableMetadata::len(&files).unwrap(),
        redb::ReadableTableMetadata::len(&permalinks).unwrap(),
        redb::ReadableTableMetadata::len(&subjects).unwrap(),
    )
}

#[test]
fn put_over_a_record_drops_its_old_permalink() {
    let mut db = empty_db();
    db.put_file(&record("f1", "old.png", Some("u1"))).unwrap();
    db.put_file(&record("f1", "new.png", Some("u1"))).unwrap();
    assert!(db.get_file_by_permalink("old.png").unwrap().is_none());
    assert!(!db.permalink_exists("old.png").unwrap());
    assert_eq!(db.get_file_by_permalink("new.png").unwrap().unwrap().id, "f1");
    assert_eq!(ids(&db.get_files_by_subject("u1").unwrap()), vec!["f1"]);
    assert_eq!(db.get_all_files().unwrap().len(), 1);
}

#[test]
fn put_over_a_record_moves_it_to_the_new_subject() {
    let mut db = empty_db();
    db.put_file(&record("f1", "a.png", Some("u1"))).unwrap();
    db.put_file(&record("f2", "b.png", Some("u1"))).unwrap();
    db.put_file(&record("f1", "a.png", Some("u2"))).unwrap();
    assert_eq!(ids(&db.get_files_by_subject("u1").unwrap()), vec!["f2"]);
    assert_eq!(ids(&db.get_files_by_subject("u2").unwrap()), vec!["f1"]);
    assert_eq!(db.get_file_by_permalink("a.png").unwrap().unwrap().id, "f1");

    // a put without a subject takes the record out of every list
    db.put_file(&record("f2", "b.png", None)).unwrap();
    assert!(db.get_files_by_subject("u1").unwrap().is_empty());
    assert_eq!(table_sizes(&db), (2, 2, 1));
}

#[test]
fn put_over_a_record_with_the_same_keys_changes_no_index() {
    let mut db = empty_db();
    db.put_file(&record("f1", "a.png", Some("u1"))).unwrap();
    db.put_file(&record("f1", "a.png", Some("u1"))).unwrap();
    assert_eq!(db.get_file_by_permalink("a.png").unwrap().unwrap().id, "f1");
    assert_eq!(ids(&db.get_files_by_subject("u1").unwrap()), vec!["f1"]);
    assert_eq!(table_sizes(&db), (1, 1, 1));
    db.put_file(&record("f1", "b.png", Some("u2"))).unwrap();
    assert_eq!(table_sizes(&db), (1, 1, 1));
}

#[test]
fn a_record_with_an_empty_id_or_permalink_is_stored() {
    let mut db = empty_db();
    db.put_file(&record("", "a.png", None)).unwrap();
    db.put_file(&record("f1", "", None)).unwrap();
    assert_eq!(db.get_file("").unwrap().unwrap().permalink, "a.png");
    assert_eq!(db.get_file_by_permalink("").unwrap().unwrap().id, "f1");
    assert_eq!(db.get_all_files().unwrap().len(), 2);
}

#[test]
fn an_update_is_stamped_with_the_time_it_carries() {
    let mut one = FileStateMachine::new(empty_db());
    let mut two = FileStateMachine::new(empty_db());
    let create = WriteOp::CreateFile(record("f1", "a.png", None));
    let update = WriteOp::UpdateFile {
        id: "f1".to_string(),
        alt: Patch::Absent,
        description: Patch::Absent,
        metadata: Patch::Absent,
        name: Patch::Value("n".to_string()),
        permalink: None,
        subject_id: Patch::Absent,
        updated_at: Timestamp { secs: 1_700_000_000, nanos: 999_999_999 },
    };
    one.apply(&create).unwrap();
    one.apply(&update).unwrap();
    two.apply(&create).unwrap();
    two.apply(&update).unwrap();
    let a = one.database().get_file("f1").unwrap().unwrap();
    let b = two.database().get_file("f1").unwrap().unwrap();
    assert_eq!(a.updated_at, Timestamp { secs: 1_700_000_000, nanos: 999_999_999 });
    assert_eq!(b.updated_at, a.updated_at);
    assert_eq!(a.created_at, Timestamp { secs: 1_700_000_000, nanos: 123_456_789 });
    assert_eq!(a.name, Some("n".to_string()));
    assert_eq!(b.name, a.name);
}
