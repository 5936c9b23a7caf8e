//! The write protocol: what a create, an update or a delete request has to
//! pass before it is replicated, and what follows from each outcome of
//! storing the blob and of replicating the operation.

use std::collections::HashMap;
use vstd::prelude::*;

use crate::api::{
    paginate, replication_error, ApiError, ListFilesParams, Page, ReplicationError, BAD_REQUEST,
    CONFLICT, INTERNAL_SERVER_ERROR, NOT_FOUND, PAYLOAD_TOO_LARGE, SERVICE_UNAVAILABLE,
};
use crate::db::Database;
use crate::models::{
    file_type_of, metadata_view, text_view, views, FileRecord, FileRecordView, FileType, Patch,
    Timestamp, WriteOp,
};
use crate::object_store::{blob_write_error, ObjectStoreError};
use crate::state_machine::{patch_metadata_view, patch_text_view};
use crate::store::{of_type, Change, StoreView, WriteOpView};
use crate::text::{blank, decimal, decimal_text, is_blank, join3, same_text};

verus! {

/// The file part of an upload.
#[derive(Debug)]
pub struct FilePart {
    pub file_name: Option<String>,
    pub content_type: Option<String>,
    pub data: Vec<u8>,
}

/// The parts of a create request, as far as they have been read.
#[derive(Debug)]
pub struct CreateForm {
    pub file: Option<FilePart>,
    pub permalink: Option<String>,
    pub name: Option<String>,
    pub alt: Option<String>,
    pub description: Option<String>,
    pub metadata: Option<HashMap<String, serde_json::Value>>,
    pub subject_id: Option<String>,
}

/// A create request that has passed every check: the blob and the record
/// that will point to it.
#[derive(Debug)]
pub struct NewFile {
    pub data: Vec<u8>,
    pub record: FileRecord,
}

/// The JSON object that a text spells, as `serde_json::from_str` reads it;
/// `None` where it reports an error.
pub uninterp spec fn json_object(text: Seq<char>) -> Option<Map<String, serde_json::Value>>;

/// `serde_json::from_str` for a map of JSON values, an error given as its
/// text. Claimed: the result is a function of the text, named `json_object`.
#[verifier::external_body]
fn parse_json_object(text: &str) -> (r: Result<HashMap<String, serde_json::Value>, String>)
    ensures
        r matches Ok(m) ==> json_object(text@) == Some(m@),
        r is Err ==> json_object(text@) is None,
{
    match serde_json::from_str::<HashMap<String, serde_json::Value>>(text) {
        Ok(m) => Ok(m),
        Err(e) => Err(e.to_string()),
    }
}

/// `mime_guess::from_path` and the first type of its guess. Nothing is
/// claimed of the result: how a path is read depends on the platform.
#[verifier::external_body]
fn guess_mime(file_name: &str) -> Option<String> {
    mime_guess::from_path(file_name).first().map(|m| m.to_string())
}

/// `uuid::Uuid::new_v4`, as text. Nothing is claimed of the result.
#[verifier::external_body]
fn fresh_id() -> String {
    uuid::Uuid::new_v4().to_string()
}

/// The MIME type of an upload: the declared content type unless that is the
/// catch-all, else the guess from the file name, else the catch-all.
pub open spec fn chosen_mime(content_type: Option<Seq<char>>, guess: Option<Seq<char>>) -> Seq<char> {
    if content_type is Some && content_type->0 != "application/octet-stream"@ {
        content_type->0
    } else if guess is Some {
        guess->0
    } else {
        "application/octet-stream"@
    }
}

/// Choose the MIME type of an upload from its declared content type and
/// from what its file name suggests.
pub fn choose_mime_type(content_type: Option<String>, guess: Option<String>) -> (r: String)
    ensures
        r@ == chosen_mime(text_view(content_type), text_view(guess)),
{
    match content_type {
        Some(declared) => {
            if !same_text(declared.as_str(), "application/octet-stream") {
                return declared;
            }
        },
        None => {},
    }
    match guess {
        Some(g) => g,
        None => "application/octet-stream".to_owned(),
    }
}

/// What a file's name suggests as its MIME type, where the declared
/// content type leaves the question open: where it is missing or the
/// catch-all.
fn suggested(content_type: &Option<String>, file_name: Option<&str>) -> (r: Option<String>)
    ensures
        content_type is Some && content_type->0@ != "application/octet-stream"@ ==> r is None,
        file_name is None ==> r is None,
{
    let open = match content_type {
        Some(declared) => same_text(declared.as_str(), "application/octet-stream"),
        None => true,
    };
    match file_name {
        Some(n) => if open {
            guess_mime(n)
        } else {
            None
        },
        None => None,
    }
}

/// The MIME type of an upload. A declared content type other than the
/// catch-all is taken as it is; else the file name decides, where it
/// suggests anything.
pub fn resolve_mime_type(content_type: Option<String>, file_name: Option<&str>) -> (r: String)
    ensures
        exists|guess: Option<Seq<char>>| r@ == #[trigger] chosen_mime(text_view(content_type), guess),
        content_type is Some && content_type->0@ != "application/octet-stream"@ ==> r@ == content_type->0@,
        file_name is None ==> r@ == chosen_mime(text_view(content_type), None),
{
    let guess = suggested(&content_type, file_name);
    let ghost guessed = text_view(guess);
    let r = choose_mime_type(content_type, guess);
    assert(r@ == chosen_mime(text_view(content_type), guessed));
    r
}

impl CreateForm {
    /// A form of which nothing has been read yet.
    pub fn new() -> (r: Self)
        ensures
            r.file is None,
            r.permalink is None,
            r.name is None,
            r.alt is None,
            r.description is None,
            r.metadata is None,
            r.subject_id is None,
    {
        CreateForm {
            file: None,
            permalink: None,
            name: None,
            alt: None,
            description: None,
            metadata: None,
            subject_id: None,
        }
    }

    /// The file part has been read. A blob above the upload limit is
    /// refused; else the part is kept, in place of an earlier one.
    pub fn take_file(&mut self, part: FilePart, max_upload_size: u64) -> (r: Result<(), ApiError>)
        ensures
            r is Ok <==> part.data@.len() <= max_upload_size,
            r is Ok ==> *final(self) == (CreateForm { file: Some(part), ..*old(self) }),
            r matches Err(e) ==> {
                &&& *final(self) == *old(self)
                &&& e is Fail
                &&& e.status() == PAYLOAD_TOO_LARGE
                &&& e.text() == "File exceeds maximum upload size of "@ + decimal(max_upload_size as nat)
                    + " bytes"@
            },
    {
        if part.data.len() as u64 > max_upload_size {
            let limit = decimal_text(max_upload_size);
            return Err(
                ApiError::payload_too_large(
                    join3("File exceeds maximum upload size of ", limit.as_str(), " bytes"),
                ),
            );
        }
        self.file = Some(part);
        Ok(())
    }

    /// A text part has been read. A part under a known name is kept, in
    /// place of an earlier one of that name; metadata has to spell a JSON
    /// object; a part under any other name is ignored.
    pub fn take_text(&mut self, field: &str, text: String) -> (r: Result<(), ApiError>)
        ensures
            r is Err <==> field@ == "metadata"@ && json_object(text@) is None,
            r matches Err(e) ==> {
                &&& *final(self) == *old(self)
                &&& e is Fail
                &&& e.status() == BAD_REQUEST
                &&& "metadata must be a JSON object: "@.is_prefix_of(e.text())
            },
            r is Ok ==> {
                if field@ == "permalink"@ {
                    *final(self) == (CreateForm { permalink: Some(text), ..*old(self) })
                } else if field@ == "name"@ {
                    *final(self) == (CreateForm { name: Some(text), ..*old(self) })
                } else if field@ == "alt"@ {
                    *final(self) == (CreateForm { alt: Some(text), ..*old(self) })
                } else if field@ == "description"@ {
                    *final(self) == (CreateForm { description: Some(text), ..*old(self) })
                } else if field@ == "subject_id"@ {
                    *final(self) == (CreateForm { subject_id: Some(text), ..*old(self) })
                } else if field@ == "metadata"@ {
                    &&& metadata_view(final(self).metadata) == json_object(text@)
                    &&& final(self).file == old(self).file
                    &&& final(self).permalink == old(self).permalink
                    &&& final(self).name == old(self).name
                    &&& final(self).alt == old(self).alt
                    &&& final(self).description == old(self).description
                    &&& final(self).subject_id == old(self).subject_id
                } else {
                    *final(self) == *old(self)
                }
            },
    {
        proof {
            reveal_strlit("permalink");
            reveal_strlit("name");
            reveal_strlit("alt");
            reveal_strlit("description");
            reveal_strlit("subject_id");
            reveal_strlit("metadata");
            assert("permalink"@.len() == 9 && "name"@.len() == 4 && "alt"@.len() == 3);
            assert("description"@.len() == 11 && "subject_id"@.len() == 10 && "metadata"@.len() == 8);
        }
        if same_text(field, "permalink") {
            self.permalink = Some(text);
        } else if same_text(field, "name") {
            self.name = Some(text);
        } else if same_text(field, "alt") {
            self.alt = Some(text);
        } else if same_text(field, "description") {
            self.description = Some(text);
        } else if same_text(field, "subject_id") {
            self.subject_id = Some(text);
        } else if same_text(field, "metadata") {
            match parse_json_object(text.as_str()) {
                Ok(parsed) => {
                    self.metadata = Some(parsed);
                },
                Err(why) => {
                    return Err(
                        ApiError::bad_request(
                            crate::text::join("metadata must be a JSON object: ", why.as_str()),
                        ),
                    );
                },
            }
        }
        Ok(())
    }

    /// What is wrong with a form before the store is asked: the first of a
    /// missing file, a missing permalink and a blank permalink.
    pub open spec fn fault(self) -> Option<Seq<char>> {
        if self.file is None {
            Some("file field is required"@)
        } else if self.permalink is None {
            Some("permalink field is required"@)
        } else if blank(self.permalink->0@) {
            Some("permalink must not be empty"@)
        } else {
            None
        }
    }
}

/// The message that refuses a permalink which is already taken.
pub open spec fn in_use(permalink: Seq<char>) -> Seq<char> {
    "permalink '"@ + permalink + "' is already in use"@
}

/// Why a create request is refused, as a status and a message, or `None`
/// where it is not: a form with a fault is a bad request, and a permalink
/// that the permalink index holds (`taken`) is a conflict.
pub open spec fn create_refusal(form: CreateForm, taken: bool) -> Option<(u16, Seq<char>)> {
    match form.fault() {
        Some(m) => Some((BAD_REQUEST, m)),
        None => if taken {
            Some((CONFLICT, in_use(form.permalink->0@)))
        } else {
            None
        },
    }
}

/// The record of a new file made from `form`, under the id `id` and
/// created at `now`, where `guess` is what the file's name suggests as its
/// MIME type.
pub open spec fn new_record(form: CreateForm, guess: Option<Seq<char>>, id: Seq<char>, now: Timestamp) -> FileRecordView {
    let mime_type = chosen_mime(text_view(form.file->0.content_type), guess);
    FileRecordView {
        id,
        mime_type,
        file_type: file_type_of(mime_type),
        byte_size: form.file->0.data@.len() as u64,
        permalink: form.permalink->0@,
        created_at: now,
        updated_at: now,
        alt: text_view(form.alt),
        description: text_view(form.description),
        metadata: metadata_view(form.metadata),
        name: text_view(form.name),
        subject_id: text_view(form.subject_id),
    }
}

/// Whether `record` is the record of a new file made from `form`, whatever
/// its id, its time of creation and what the file's name suggests.
pub open spec fn is_record_of(record: FileRecordView, form: CreateForm) -> bool {
    exists|guess: Option<Seq<char>>| record == #[trigger] new_record(form, guess, record.id, record.created_at)
}

/// Whether `error` refuses a request with this status and this message.
pub open spec fn refuses(error: ApiError, refusal: (u16, Seq<char>)) -> bool {
    error is Fail && error.status() == refusal.0 && error.text() == refusal.1
}

/// Decide a create request from what the store has answered: `taken` says
/// whether the permalink index holds the form's permalink. The request is
/// refused exactly as `create_refusal` says; otherwise the blob comes back
/// with its record, under the id `id`, created at `now`, of the MIME type
/// that the declared content type and `guess` give.
pub fn plan_create(form: CreateForm, taken: bool, guess: Option<String>, id: String, now: Timestamp) -> (r: Result<
    NewFile,
    ApiError,
>)
    ensures
        match create_refusal(form, taken) {
            Some(refusal) => r matches Err(e) && refuses(e, refusal),
            None => r matches Ok(new) && new.data@ == form.file->0.data@ && new.record@ == new_record(
                form,
                text_view(guess),
                id@,
                now,
            ),
        },
{
    let part = match form.file {
        Some(part) => part,
        None => {
            return Err(ApiError::bad_request("file field is required".to_owned()));
        },
    };
    let permalink = match form.permalink {
        Some(p) => p,
        None => {
            return Err(ApiError::bad_request("permalink field is required".to_owned()));
        },
    };
    if is_blank(permalink.as_str()) {
        return Err(ApiError::bad_request("permalink must not be empty".to_owned()));
    }
    if taken {
        return Err(ApiError::conflict(join3("permalink '", permalink.as_str(), "' is already in use")));
    }
    let mime_type = choose_mime_type(part.content_type, guess);
    let file_type = FileType::from_mime(mime_type.as_str());
    let byte_size = part.data.len() as u64;
    let record = FileRecord {
        id,
        mime_type,
        file_type,
        byte_size,
        permalink,
        created_at: now,
        updated_at: now,
        alt: form.alt,
        description: form.description,
        metadata: form.metadata,
        name: form.name,
        subject_id: form.subject_id,
    };
    Ok(NewFile { data: part.data, record })
}

/// Whether the store's permalink index holds the permalink of `form`.
pub open spec fn form_is_taken(store: StoreView, form: CreateForm) -> bool {
    form.permalink is Some && store.permalinks.contains_key(form.permalink->0@)
}

/// Check a create request against the store and make the record of the new
/// file, under a fresh id and created now. A form with a fault is refused
/// before anything is read. Every other refusal is the one that
/// `create_refusal` gives for what the store holds; an internal error comes
/// only where the store could not be read, never for a form with a fault.
/// Two requests may pass this check with the same permalink: the order in
/// which they are replicated decides, and the later one takes the permalink.
pub fn prepare_create(db: &Database, form: CreateForm) -> (r: Result<NewFile, ApiError>)
    ensures
        form.fault() matches Some(m) ==> (r matches Err(e) && refuses(e, (BAD_REQUEST, m))),
        r matches Ok(new) ==> {
            &&& create_refusal(form, form_is_taken(db@, form)) is None
            &&& new.data@ == form.file->0.data@
            &&& is_record_of(new.record@, form)
        },
        r matches Err(e) ==> {
            &&& e is Fail ==> {
                &&& create_refusal(form, form_is_taken(db@, form)) is Some
                &&& refuses(e, create_refusal(form, form_is_taken(db@, form))->0)
            }
            &&& e is Error ==> e.status() == INTERNAL_SERVER_ERROR && form.fault() is None
        },
        create_refusal(form, form_is_taken(db@, form)) is Some ==> r is Err,
{
    let taken = match (&form.file, &form.permalink) {
        (Some(_), Some(permalink)) => {
            if is_blank(permalink.as_str()) {
                false
            } else {
                match db.permalink_exists(permalink.as_str()) {
                    Ok(taken) => taken,
                    Err(e) => {
                        return Err(ApiError::internal(e.message()));
                    },
                }
            }
        },
        _ => false,
    };
    let guess = match &form.file {
        Some(part) => suggested(
            &part.content_type,
            match &part.file_name {
                Some(n) => Some(n.as_str()),
                None => None,
            },
        ),
        None => None,
    };
    let r = plan_create(form, taken, guess, fresh_id(), Timestamp::now());
    proof {
        if r is Ok {
            let record = r->Ok_0.record@;
            assert(record == new_record(form, text_view(guess), record.id, record.created_at));
        }
    }
    r
}

/// Whether `error` is what the replication error `e` means for a request.
pub open spec fn replication_failure(e: ReplicationError, error: ApiError) -> bool {
    match e {
        ReplicationError::NotLeader => error is Fail && error.status() == SERVICE_UNAVAILABLE && error.text()
            == "No leader available \u{2014} retry shortly"@,
        ReplicationError::NoQuorum => error is Fail && error.status() == SERVICE_UNAVAILABLE && error.text()
            == "Failed to reach quorum for replication"@,
        ReplicationError::Other(m) => error == ApiError::Error(INTERNAL_SERVER_ERROR, m),
    }
}

/// What the caller of the protocol does next.
#[derive(Debug)]
pub enum Action {
    /// Store the bytes in the object store, under this key.
    StoreBlob(String, Vec<u8>),
    /// Hand the operation to the replication layer.
    Replicate(WriteOp),
    /// Delete the blob under this key from the object store. A failure to
    /// do so is logged and nothing more: a blob without metadata is dead
    /// weight, never served.
    DeleteBlob(String),
    /// Load the record under this id again.
    Reload(String),
    /// Answer with the record.
    Succeed(Option<FileRecord>),
    /// Answer with the error.
    Fail(ApiError),
}

/// Where a create stands.
#[derive(Debug)]
pub enum CreateState {
    /// The blob is being stored under the record's id.
    Storing(FileRecord),
    /// The record is being replicated.
    Replicating(FileRecord),
    /// Replication has failed; the blob is being deleted again.
    RollingBack(ApiError),
    /// The request has been answered.
    Finished,
}

/// What has happened to a create.
#[derive(Debug)]
pub enum CreateEvent {
    /// The object store has answered the upload.
    Stored(Result<(), ObjectStoreError>),
    /// The replication layer has answered.
    Replicated(Result<(), ReplicationError>),
    /// The blob has been deleted again, or the attempt has failed.
    RolledBack,
}

/// Whether `event` is what a create in `state` waits for.
pub open spec fn create_expects(state: CreateState, event: CreateEvent) -> bool {
    match state {
        CreateState::Storing(_) => event is Stored,
        CreateState::Replicating(_) => event is Replicated,
        CreateState::RollingBack(_) => event is RolledBack,
        CreateState::Finished => false,
    }
}

/// The answer to an event that the protocol does not wait for.
fn out_of_step() -> (r: (CreateState, Action))
    ensures
        r.0 is Finished,
        r.1 matches Action::Fail(e) && e is Error && e.status() == INTERNAL_SERVER_ERROR && e.text()
            == "create protocol out of step"@,
{
    (CreateState::Finished, Action::Fail(ApiError::internal("create protocol out of step".to_owned())))
}

/// The first step of a create: the file's bytes go to the object store,
/// under the record's id, before anything is replicated.
pub fn begin_create(new: NewFile) -> (r: (CreateState, Action))
    ensures
        r.0 matches CreateState::Storing(record) && record@ == new.record@,
        r.1 matches Action::StoreBlob(key, data) && key@ == new.record.id@ && data@ == new.data@,
{
    let key = new.record.id.as_str().to_owned();
    (CreateState::Storing(new.record), Action::StoreBlob(key, new.data))
}

/// One step of a create. The blob goes first, then the record is
/// replicated; where replication fails, the blob is deleted again and the
/// request fails with the replication error. An event that the state does
/// not wait for ends the create with an internal error.
pub fn create_step(state: CreateState, event: CreateEvent) -> (r: (CreateState, Action))
    ensures
        match (state, event) {
            (CreateState::Storing(record), CreateEvent::Stored(Ok(_))) => {
                &&& r.0 matches CreateState::Replicating(kept)
                &&& kept@ == record@
                &&& r.1 matches Action::Replicate(op)
                &&& op@ == WriteOpView::CreateFile(record@)
            },
            (CreateState::Storing(_), CreateEvent::Stored(Err(_))) => {
                &&& r.0 is Finished
                &&& r.1 matches Action::Fail(e)
                &&& e is Error
                &&& e.status() == INTERNAL_SERVER_ERROR
                &&& "Failed to store file: "@.is_prefix_of(e.text())
            },
            (CreateState::Replicating(record), CreateEvent::Replicated(Ok(_))) => {
                &&& r.0 is Finished
                &&& r.1 matches Action::Succeed(Some(answer))
                &&& answer@ == record@
            },
            (CreateState::Replicating(record), CreateEvent::Replicated(Err(e))) => {
                &&& r.0 matches CreateState::RollingBack(error)
                &&& r.1 matches Action::DeleteBlob(key)
                &&& key@ == record.id@
                &&& replication_failure(e, error)
            },
            (CreateState::RollingBack(error), CreateEvent::RolledBack) => r.0 is Finished && r.1
                == Action::Fail(error),
            _ => {
                &&& !create_expects(state, event)
                &&& r.0 is Finished
                &&& r.1 matches Action::Fail(e)
                &&& e is Error
                &&& e.status() == INTERNAL_SERVER_ERROR
                &&& e.text() == "create protocol out of step"@
            },
        },
{
    match state {
        CreateState::Storing(record) => match event {
            CreateEvent::Stored(Ok(())) => {
                let op = WriteOp::CreateFile(record.duplicate());
                (CreateState::Replicating(record), Action::Replicate(op))
            },
            CreateEvent::Stored(Err(e)) => (CreateState::Finished, Action::Fail(blob_write_error(&e))),
            _ => out_of_step(),
        },
        CreateState::Replicating(record) => match event {
            CreateEvent::Replicated(Ok(())) => (CreateState::Finished, Action::Succeed(Some(record))),
            CreateEvent::Replicated(Err(e)) => {
                let error = replication_error(e);
                (CreateState::RollingBack(error), Action::DeleteBlob(record.id))
            },
            _ => out_of_step(),
        },
        CreateState::RollingBack(error) => match event {
            CreateEvent::RolledBack => (CreateState::Finished, Action::Fail(error)),
            _ => out_of_step(),
        },
        CreateState::Finished => out_of_step(),
    }
}

/// What a request for one record answers once the store has been read:
/// the record, or that there is none.
pub fn found(loaded: Option<FileRecord>) -> (r: Result<FileRecord, ApiError>)
    ensures
        match loaded {
            Some(f) => r == Ok::<FileRecord, ApiError>(f),
            None => r matches Err(e) && refuses(e, (NOT_FOUND, "File not found"@)),
        },
{
    match loaded {
        Some(file) => Ok(file),
        None => Err(ApiError::not_found("File not found".to_owned())),
    }
}

/// Look a record up for a request: an unknown id is not found, a store that
/// cannot be read is an internal error and nothing else is.
pub fn fetch(db: &Database, id: &str) -> (r: Result<FileRecord, ApiError>)
    ensures
        r matches Ok(f) ==> db@.files.contains_key(id@) && db@.files[id@] == Some(f@),
        r matches Err(e) ==> {
            &&& e is Fail ==> refuses(e, (NOT_FOUND, "File not found"@)) && !db@.holds(id@)
            &&& e is Error ==> e.status() == INTERNAL_SERVER_ERROR
        },
        !db@.live(id@) ==> r is Err,
{
    match db.get_file(id) {
        Ok(loaded) => found(loaded),
        Err(e) => Err(ApiError::internal(e.message())),
    }
}

/// Look a record up by its permalink, for serving its content.
pub fn locate(db: &Database, permalink: &str) -> (r: Result<FileRecord, ApiError>)
    ensures
        r matches Ok(f) ==> db@.resolve(permalink@) == Some(f@),
        r matches Err(e) ==> {
            &&& e is Fail ==> refuses(e, (NOT_FOUND, "File not found"@)) && db@.resolve(permalink@) is None
            &&& e is Error ==> e.status() == INTERNAL_SERVER_ERROR
        },
        db@.resolve(permalink@) is None ==> r is Err,
{
    match db.get_file_by_permalink(permalink) {
        Ok(loaded) => found(loaded),
        Err(e) => Err(ApiError::internal(e.message())),
    }
}

/// The fields of an update request, each in nested-option form.
#[derive(Debug)]
pub struct UpdateFileRequest {
    pub alt: Option<Option<String>>,
    pub description: Option<Option<String>>,
    pub metadata: Option<Option<HashMap<String, serde_json::Value>>>,
    pub name: Option<Option<String>>,
    pub permalink: Option<String>,
    pub subject_id: Option<Option<String>>,
}

impl UpdateFileRequest {
    /// Whether the request names no field at all.
    pub open spec fn is_empty(self) -> bool {
        &&& self.alt is None
        &&& self.description is None
        &&& self.metadata is None
        &&& self.name is None
        &&& self.permalink is None
        &&& self.subject_id is None
    }

    /// The change that the request asks for.
    pub open spec fn change(self) -> Change {
        Change {
            alt: patch_text_view(Patch::of_nested(self.alt)),
            description: patch_text_view(Patch::of_nested(self.description)),
            metadata: patch_metadata_view(Patch::of_nested(self.metadata)),
            name: patch_text_view(Patch::of_nested(self.name)),
            permalink: text_view(self.permalink),
            subject_id: patch_text_view(Patch::of_nested(self.subject_id)),
        }
    }
}

/// Why an update request is refused, as a status and a message, or `None`
/// where it is not: `loaded` is the record that the id holds, if it holds
/// one, and `taken` says whether the permalink index holds the permalink
/// asked for. The questions are asked in this order: a request without any
/// field, an unknown id, a blank permalink, a permalink that another record
/// holds. The record's own permalink may be given again.
pub open spec fn update_refusal(req: UpdateFileRequest, loaded: Option<FileRecordView>, taken: bool) -> Option<
    (u16, Seq<char>),
> {
    if req.is_empty() {
        Some(
            (
                BAD_REQUEST,
                "at least one field (alt, description, metadata, name, permalink, subject_id) must be provided"@,
            ),
        )
    } else if loaded is None {
        Some((NOT_FOUND, "File not found"@))
    } else if req.permalink is None {
        None
    } else if blank(req.permalink->0@) {
        Some((BAD_REQUEST, "permalink must not be empty"@))
    } else if req.permalink->0@ != loaded->0.permalink && taken {
        Some((CONFLICT, in_use(req.permalink->0@)))
    } else {
        None
    }
}

/// The operation that `req` asks for on the record under `id`, stamped with
/// the time `now`.
pub open spec fn update_of(id: Seq<char>, req: UpdateFileRequest, now: Timestamp) -> WriteOpView {
    WriteOpView::UpdateFile { id, change: req.change(), now }
}

/// Decide an update request from what the store has answered: `loaded` is
/// the record under `id`, and `taken` whether the permalink asked for is in
/// the permalink index. The request is refused exactly as `update_refusal`
/// says; otherwise the operation to replicate comes back, stamped `now`.
pub fn plan_update(id: &str, req: UpdateFileRequest, loaded: Option<&FileRecord>, taken: bool, now: Timestamp) -> (r:
    Result<WriteOp, ApiError>)
    ensures
        match update_refusal(req, views_of(loaded), taken) {
            Some(refusal) => r matches Err(e) && refuses(e, refusal),
            None => r matches Ok(op) && op@ == update_of(id@, req, now),
        },
{
    if req.alt.is_none() && req.description.is_none() && req.metadata.is_none() && req.name.is_none()
        && req.permalink.is_none() && req.subject_id.is_none() {
        return Err(
            ApiError::bad_request(
                "at least one field (alt, description, metadata, name, permalink, subject_id) must be provided".to_owned(),
            ),
        );
    }
    let existing = match loaded {
        Some(f) => f,
        None => {
            return Err(ApiError::not_found("File not found".to_owned()));
        },
    };
    match &req.permalink {
        Some(wanted) => {
            if is_blank(wanted.as_str()) {
                return Err(ApiError::bad_request("permalink must not be empty".to_owned()));
            }
            if taken && !same_text(wanted.as_str(), existing.permalink.as_str()) {
                return Err(ApiError::conflict(join3("permalink '", wanted.as_str(), "' is already in use")));
            }
        },
        None => {},
    }
    Ok(
        WriteOp::UpdateFile {
            id: id.to_owned(),
            alt: Patch::from(req.alt),
            description: Patch::from(req.description),
            metadata: Patch::from(req.metadata),
            name: Patch::from(req.name),
            permalink: req.permalink,
            subject_id: Patch::from(req.subject_id),
            updated_at: now,
        },
    )
}

/// The record that a reference points at, if there is one, as a value.
pub open spec fn views_of(loaded: Option<&FileRecord>) -> Option<FileRecordView> {
    match loaded {
        Some(f) => Some(f@),
        None => None,
    }
}

/// The record that the store holds under `id`, where it holds one that can
/// be read.
pub open spec fn loaded_from(store: StoreView, id: Seq<char>) -> Option<FileRecordView> {
    if store.live(id) {
        store.files[id]
    } else {
        None
    }
}

/// Whether the permalink that `req` asks for is in the store's permalink
/// index.
pub open spec fn wanted_is_taken(store: StoreView, req: UpdateFileRequest) -> bool {
    req.permalink is Some && store.permalinks.contains_key(req.permalink->0@)
}

/// Check an update request against the store and make the operation to
/// replicate, stamped `now`. A request without any field is refused before
/// anything is read. Every other refusal is the one that `update_refusal`
/// gives for what the store holds; an internal error comes only where the
/// store could not be read, never for a request without fields.
pub fn prepare_update(db: &Database, id: &str, req: UpdateFileRequest, now: Timestamp) -> (r: Result<
    WriteOp,
    ApiError,
>)
    ensures
        req.is_empty() ==> (r matches Err(e) && refuses(
            e,
            (
                BAD_REQUEST,
                "at least one field (alt, description, metadata, name, permalink, subject_id) must be provided"@,
            ),
        )),
        r matches Ok(op) ==> {
            &&& db@.live(id@)
            &&& update_refusal(req, loaded_from(db@, id@), wanted_is_taken(db@, req)) is None
            &&& op@ == update_of(id@, req, now)
        },
        r matches Err(e) ==> {
            &&& e is Fail ==> {
                &&& req.is_empty() || db@.live(id@) || !db@.holds(id@)
                &&& update_refusal(req, loaded_from(db@, id@), wanted_is_taken(db@, req)) is Some
                &&& refuses(e, update_refusal(req, loaded_from(db@, id@), wanted_is_taken(db@, req))->0)
            }
            &&& e is Error ==> e.status() == INTERNAL_SERVER_ERROR && !req.is_empty()
        },
        update_refusal(req, loaded_from(db@, id@), wanted_is_taken(db@, req)) is Some ==> r is Err,
        !db@.live(id@) ==> r is Err,
{
    if req.alt.is_none() && req.description.is_none() && req.metadata.is_none() && req.name.is_none()
        && req.permalink.is_none() && req.subject_id.is_none() {
        return plan_update(id, req, None, false, now);
    }
    let loaded = match db.get_file(id) {
        Ok(found) => found,
        Err(e) => {
            return Err(ApiError::internal(e.message()));
        },
    };
    let taken = match (&loaded, &req.permalink) {
        (Some(existing), Some(wanted)) => {
            if is_blank(wanted.as_str()) || same_text(wanted.as_str(), existing.permalink.as_str()) {
                false
            } else {
                match db.permalink_exists(wanted.as_str()) {
                    Ok(taken) => taken,
                    Err(e) => {
                        return Err(ApiError::internal(e.message()));
                    },
                }
            }
        },
        _ => false,
    };
    plan_update(id, req, loaded.as_ref(), taken, now)
}

/// What an update answers once its operation has been replicated and the
/// record has been loaded again.
pub fn finish_update(found: Result<FileRecord, ApiError>) -> (r: Result<FileRecord, ApiError>)
    ensures
        match found {
            Ok(f) => r == Ok::<FileRecord, ApiError>(f),
            Err(ApiError::Fail(_, _)) => r matches Err(e) && e is Error && e.status() == INTERNAL_SERVER_ERROR
                && e.text() == "File not found after update"@,
            Err(e) => r == Err::<FileRecord, ApiError>(e),
        },
{
    match found {
        Ok(f) => Ok(f),
        Err(ApiError::Fail(_, _)) => Err(ApiError::internal("File not found after update".to_owned())),
        Err(e) => Err(e),
    }
}

/// Decide a delete request from what the store has answered: the record
/// has to exist.
pub fn plan_delete(id: &str, loaded: Option<&FileRecord>) -> (r: Result<WriteOp, ApiError>)
    ensures
        match loaded {
            Some(_) => r matches Ok(op) && op@ == (WriteOpView::DeleteFile { id: id@ }),
            None => r matches Err(e) && refuses(e, (NOT_FOUND, "File not found"@)),
        },
{
    match loaded {
        Some(_) => Ok(WriteOp::DeleteFile { id: id.to_owned() }),
        None => Err(ApiError::not_found("File not found".to_owned())),
    }
}

/// Check a delete request against the store and make the operation to
/// replicate: the record has to exist. An internal error comes only where
/// the store could not be read.
pub fn prepare_delete(db: &Database, id: &str) -> (r: Result<WriteOp, ApiError>)
    ensures
        r matches Ok(op) ==> db@.live(id@) && op@ == (WriteOpView::DeleteFile { id: id@ }),
        r matches Err(e) ==> {
            &&& e is Fail ==> refuses(e, (NOT_FOUND, "File not found"@)) && !db@.holds(id@)
            &&& e is Error ==> e.status() == INTERNAL_SERVER_ERROR
        },
        !db@.live(id@) ==> r is Err,
{
    match db.get_file(id) {
        Ok(loaded) => plan_delete(id, loaded.as_ref()),
        Err(e) => Err(ApiError::internal(e.message())),
    }
}

/// Where a delete stands.
#[derive(Debug)]
pub enum DeleteState {
    /// The operation is being replicated; the id is that of the record.
    Replicating(String),
    /// The metadata is gone; the blob is being deleted.
    DeletingBlob,
    /// The request has been answered.
    Finished,
}

/// What has happened to a delete.
#[derive(Debug)]
pub enum DeleteEvent {
    /// The replication layer has answered.
    Replicated(Result<(), ReplicationError>),
    /// The object store has answered the deletion of the blob.
    BlobDeleted(Result<(), ObjectStoreError>),
}

/// Whether `event` is what a delete in `state` waits for.
pub open spec fn delete_expects(state: DeleteState, event: DeleteEvent) -> bool {
    match state {
        DeleteState::Replicating(_) => event is Replicated,
        DeleteState::DeletingBlob => event is BlobDeleted,
        DeleteState::Finished => false,
    }
}

/// The first step of a delete that `prepare_delete` has let pass: the
/// operation goes to the replication layer, before the blob is touched.
pub fn begin_delete(id: &str) -> (r: (DeleteState, Action))
    ensures
        r.0 matches DeleteState::Replicating(kept) && kept@ == id@,
        r.1 matches Action::Replicate(op) && op@ == (WriteOpView::DeleteFile { id: id@ }),
{
    (DeleteState::Replicating(id.to_owned()), Action::Replicate(WriteOp::DeleteFile { id: id.to_owned() }))
}

/// One step of a delete. The metadata goes first: where replication fails,
/// the request fails and the blob stays. Once the metadata is gone on every
/// node the blob is deleted too, and the request succeeds whatever the
/// object store answers: a blob without metadata is never served. An event
/// that the state does not wait for ends the delete with an internal error.
pub fn delete_step(state: DeleteState, event: DeleteEvent) -> (r: (DeleteState, Action))
    ensures
        match (state, event) {
            (DeleteState::Replicating(id), DeleteEvent::Replicated(Ok(_))) => {
                &&& r.0 is DeletingBlob
                &&& r.1 matches Action::DeleteBlob(key)
                &&& key@ == id@
            },
            (DeleteState::Replicating(_), DeleteEvent::Replicated(Err(e))) => {
                &&& r.0 is Finished
                &&& r.1 matches Action::Fail(error)
                &&& replication_failure(e, error)
            },
            (DeleteState::DeletingBlob, DeleteEvent::BlobDeleted(_)) => {
                &&& r.0 is Finished
                &&& r.1 matches Action::Succeed(answer)
                &&& answer is None
            },
            _ => {
                &&& !delete_expects(state, event)
                &&& r.0 is Finished
                &&& r.1 matches Action::Fail(e)
                &&& e is Error
                &&& e.status() == INTERNAL_SERVER_ERROR
                &&& e.text() == "delete protocol out of step"@
            },
        },
{
    match state {
        DeleteState::Replicating(id) => match event {
            DeleteEvent::Replicated(Ok(())) => (DeleteState::DeletingBlob, Action::DeleteBlob(id)),
            DeleteEvent::Replicated(Err(e)) => (DeleteState::Finished, Action::Fail(replication_error(e))),
            _ => (
                DeleteState::Finished,
                Action::Fail(ApiError::internal("delete protocol out of step".to_owned())),
            ),
        },
        DeleteState::DeletingBlob => match event {
            DeleteEvent::BlobDeleted(_) => (DeleteState::Finished, Action::Succeed(None)),
            _ => (
                DeleteState::Finished,
                Action::Fail(ApiError::internal("delete protocol out of step".to_owned())),
            ),
        },
        DeleteState::Finished => (
            DeleteState::Finished,
            Action::Fail(ApiError::internal("delete protocol out of step".to_owned())),
        ),
    }
}

/// What follows from the replication layer's answer to an update: the
/// record is loaded again for the answer, or the request fails.
pub fn update_replicated(id: &str, outcome: Result<(), ReplicationError>) -> (r: Action)
    ensures
        match outcome {
            Ok(_) => r matches Action::Reload(key) && key@ == id@,
            Err(e) => r matches Action::Fail(error) && replication_failure(e, error),
        },
{
    match outcome {
        Ok(()) => Action::Reload(id.to_owned()),
        Err(e) => Action::Fail(replication_error(e)),
    }
}

/// One page of a listing, filtered as the parameters say. A page size of
/// zero is refused as a bad request, before anything is read; an internal
/// error comes only where the store could not be read.
pub fn list_page(db: &Database, params: &ListFilesParams) -> (r: Result<Page, ApiError>)
    ensures
        r matches Ok(page) ==> {
            &&& params.limit > 0
            &&& page.pagination.limit == params.limit
            &&& page.pagination.offset == params.offset
            &&& exists|all: Seq<FileRecordView>|
                {
                    &&& match params.subject_id {
                        Some(s) => all == of_type(db@.filed_under(s@), text_view(params.file_type)),
                        None => exists|every: Seq<FileRecordView>| #[trigger]
                            db@.is_full_listing(every) && all == of_type(every, text_view(params.file_type)),
                    }
                    &&& page.pagination.total == all.len()
                    &&& views(page.items@) == #[trigger] all.subrange(
                        crate::api::page_start(all.len(), params.offset),
                        crate::api::page_end(all.len(), params.offset, params.limit),
                    )
                }
        },
        params.limit == 0 ==> (r matches Err(e) && refuses(e, (BAD_REQUEST, "limit must be greater than 0"@))),
        r matches Err(e) ==> {
            &&& e is Fail ==> params.limit == 0
            &&& e is Error ==> e.status() == INTERNAL_SERVER_ERROR && params.limit > 0
        },
{
    if params.limit == 0 {
        return Err(ApiError::bad_request("limit must be greater than 0".to_owned()));
    }
    let file_type = match &params.file_type {
        Some(t) => Some(t.as_str()),
        None => None,
    };
    let subject_id = match &params.subject_id {
        Some(s) => Some(s.as_str()),
        None => None,
    };
    match db.list_files(file_type, subject_id) {
        Ok(files) => {
            let page = paginate(&files, params.offset, params.limit);
            proof {
                let all = views(files@);
                assert(crate::models::str_view(file_type) == text_view(params.file_type));
                assert(crate::models::str_view(subject_id) == text_view(params.subject_id));
                assert(page.pagination.total == all.len());
                assert(views(page.items@) == all.subrange(
                    crate::api::page_start(all.len(), params.offset),
                    crate::api::page_end(all.len(), params.offset, params.limit),
                ));
            }
            Ok(page)
        },
        Err(e) => Err(ApiError::internal(e.message())),
    }
}

} // verus!
