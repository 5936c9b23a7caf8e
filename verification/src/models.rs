//! The record model: file metadata, the tri-state patch used by partial
//! updates, and the operations that are replicated.

use std::collections::HashMap;
use vstd::prelude::*;
use vstd::std_specs::convert::FromSpecImpl;

use crate::text::{chars_of, range_is, segment_end, segment_len};

verus! {

/// Three-state value of one optional field in a partial update. Unlike a
/// nested `Option`, each state has its own wire form.
#[derive(Debug, Clone, Default, PartialEq)]
pub enum Patch<T> {
    /// The field was not part of the request: leave it as it is.
    #[default]
    Absent,
    /// The field was explicitly set to null: clear it.
    Null,
    /// The field was given a new value.
    Value(T),
}

impl<T> Patch<T> {
    /// What a field holding `current` holds once this patch is applied.
    pub open spec fn apply(self, current: Option<T>) -> Option<T> {
        match self {
            Patch::Absent => current,
            Patch::Null => None,
            Patch::Value(v) => Some(v),
        }
    }

    /// The nested-option reading of this patch: `None` for an omitted field,
    /// `Some(None)` for a cleared one, `Some(Some(v))` for a new value.
    pub open spec fn nested(self) -> Option<Option<T>> {
        match self {
            Patch::Absent => None,
            Patch::Null => Some(None),
            Patch::Value(v) => Some(Some(v)),
        }
    }

    /// The patch that a nested option stands for.
    pub open spec fn of_nested(v: Option<Option<T>>) -> Patch<T> {
        match v {
            None => Patch::Absent,
            Some(None) => Patch::Null,
            Some(Some(x)) => Patch::Value(x),
        }
    }

    /// Convert to the nested-option form, borrowing the value.
    pub fn as_option(&self) -> (r: Option<Option<&T>>)
        ensures
            match *self {
                Patch::Absent => r is None,
                Patch::Null => r == Some(None::<&T>),
                Patch::Value(v) => r == Some(Some(&v)),
            },
    {
        match self {
            Patch::Absent => None,
            Patch::Null => Some(None),
            Patch::Value(v) => Some(Some(v)),
        }
    }

    /// Whether the field was omitted.
    pub fn is_absent(&self) -> (r: bool)
        ensures
            r == (*self is Absent),
    {
        match self {
            Patch::Absent => true,
            _ => false,
        }
    }
}

impl<T> From<Option<Option<T>>> for Patch<T> {
    fn from(v: Option<Option<T>>) -> (r: Self) {
        match v {
            None => Patch::Absent,
            Some(None) => Patch::Null,
            Some(Some(x)) => Patch::Value(x),
        }
    }
}

impl<T> FromSpecImpl<Option<Option<T>>> for Patch<T> {
    open spec fn obeys_from_spec() -> bool {
        true
    }

    open spec fn from_spec(v: Option<Option<T>>) -> Self {
        Patch::of_nested(v)
    }
}

/// Classification of a file, derived once from its MIME type.
#[derive(Debug, Clone, Copy, PartialEq, Eq, Structural)]
pub enum FileType {
    Audio,
    Binary,
    Document,
    Image,
    Video,
}

/// The part of a MIME type before its first `/`.
pub open spec fn primary_type(mime: Seq<char>) -> Seq<char> {
    mime.take(segment_len(mime) as int)
}

/// The part of a MIME type between its first and second `/`; empty when
/// there is no `/`.
pub open spec fn subtype(mime: Seq<char>) -> Seq<char> {
    let n = segment_len(mime);
    if n == mime.len() {
        Seq::empty()
    } else {
        let rest = mime.skip(n as int + 1);
        rest.take(segment_len(rest) as int)
    }
}

/// The `text` and `application` subtypes that count as documents.
pub open spec fn is_document_subtype(sub: Seq<char>) -> bool {
    ||| sub == "pdf"@
    ||| sub == "msword"@
    ||| sub == "rtf"@
    ||| sub == "csv"@
    ||| sub == "vnd.openxmlformats-officedocument.wordprocessingml.document"@
    ||| sub == "vnd.openxmlformats-officedocument.spreadsheetml.sheet"@
    ||| sub == "vnd.openxmlformats-officedocument.presentationml.presentation"@
    ||| sub == "vnd.ms-excel"@
    ||| sub == "vnd.ms-powerpoint"@
}

/// The classification of a MIME type.
pub open spec fn file_type_of(mime: Seq<char>) -> FileType {
    let primary = primary_type(mime);
    if primary == "audio"@ {
        FileType::Audio
    } else if primary == "image"@ {
        FileType::Image
    } else if primary == "video"@ {
        FileType::Video
    } else if primary == "text"@ {
        FileType::Document
    } else if primary == "application"@ && is_document_subtype(subtype(mime)) {
        FileType::Document
    } else {
        FileType::Binary
    }
}

fn document_subtype(v: &Vec<char>, from: usize, to: usize) -> (r: bool)
    requires
        from <= to <= v.len(),
    ensures
        r == is_document_subtype(v@.subrange(from as int, to as int)),
{
    range_is(v, from, to, "pdf") || range_is(v, from, to, "msword") || range_is(v, from, to, "rtf")
        || range_is(v, from, to, "csv") || range_is(
        v,
        from,
        to,
        "vnd.openxmlformats-officedocument.wordprocessingml.document",
    ) || range_is(v, from, to, "vnd.openxmlformats-officedocument.spreadsheetml.sheet")
        || range_is(
        v,
        from,
        to,
        "vnd.openxmlformats-officedocument.presentationml.presentation",
    ) || range_is(v, from, to, "vnd.ms-excel") || range_is(v, from, to, "vnd.ms-powerpoint")
}

impl FileType {
    /// The lower-case name under which a file type is stored and filtered.
    pub open spec fn wire_name(self) -> Seq<char> {
        match self {
            FileType::Audio => "audio"@,
            FileType::Binary => "binary"@,
            FileType::Document => "document"@,
            FileType::Image => "image"@,
            FileType::Video => "video"@,
        }
    }

    /// The file type that a stored name stands for, if any.
    pub open spec fn named(name: Seq<char>) -> Option<FileType> {
        if name == "audio"@ {
            Some(FileType::Audio)
        } else if name == "binary"@ {
            Some(FileType::Binary)
        } else if name == "document"@ {
            Some(FileType::Document)
        } else if name == "image"@ {
            Some(FileType::Image)
        } else if name == "video"@ {
            Some(FileType::Video)
        } else {
            None
        }
    }

    /// Derive a file type classification from a MIME type string.
    pub fn from_mime(mime_type: &str) -> (r: Self)
        ensures
            r == file_type_of(mime_type@),
    {
        let v = chars_of(mime_type);
        let n = segment_end(&v, 0);
        assert(v@.skip(0) =~= v@);
        assert(v@.subrange(0, n as int) =~= primary_type(v@));
        if range_is(&v, 0, n, "audio") {
            FileType::Audio
        } else if range_is(&v, 0, n, "image") {
            FileType::Image
        } else if range_is(&v, 0, n, "video") {
            FileType::Video
        } else if range_is(&v, 0, n, "text") {
            FileType::Document
        } else if range_is(&v, 0, n, "application") {
            if n == v.len() {
                proof {
                    reveal_strlit("pdf");
                    reveal_strlit("msword");
                    reveal_strlit("rtf");
                    reveal_strlit("csv");
                    reveal_strlit("vnd.openxmlformats-officedocument.wordprocessingml.document");
                    reveal_strlit("vnd.openxmlformats-officedocument.spreadsheetml.sheet");
                    reveal_strlit("vnd.openxmlformats-officedocument.presentationml.presentation");
                    reveal_strlit("vnd.ms-excel");
                    reveal_strlit("vnd.ms-powerpoint");
                    assert(subtype(v@) =~= Seq::<char>::empty());
                    assert(!is_document_subtype(Seq::<char>::empty()));
                }
                FileType::Binary
            } else {
                let m = segment_end(&v, n + 1);
                assert(v@.subrange(n + 1, m as int) =~= subtype(v@));
                if document_subtype(&v, n + 1, m) {
                    FileType::Document
                } else {
                    FileType::Binary
                }
            }
        } else {
            FileType::Binary
        }
    }

    /// The stored name of this file type.
    pub fn as_str(&self) -> (r: &'static str)
        ensures
            r@ == self.wire_name(),
    {
        match self {
            FileType::Audio => "audio",
            FileType::Binary => "binary",
            FileType::Document => "document",
            FileType::Image => "image",
            FileType::Video => "video",
        }
    }

    /// Read a stored name back.
    pub fn from_name(name: &str) -> (r: Option<FileType>)
        ensures
            r == FileType::named(name@),
    {
        if crate::text::same_text(name, "audio") {
            Some(FileType::Audio)
        } else if crate::text::same_text(name, "binary") {
            Some(FileType::Binary)
        } else if crate::text::same_text(name, "document") {
            Some(FileType::Document)
        } else if crate::text::same_text(name, "image") {
            Some(FileType::Image)
        } else if crate::text::same_text(name, "video") {
            Some(FileType::Video)
        } else {
            None
        }
    }
}

/// A point in time: whole seconds since the Unix epoch and the nanoseconds
/// within that second.
#[derive(Debug, Clone, Copy, PartialEq, Eq, Structural)]
pub struct Timestamp {
    pub secs: i64,
    pub nanos: u32,
}

/// `chrono::Utc::now`, as seconds and nanoseconds since the epoch. Nothing
/// is claimed of the result.
#[verifier::external_body]
fn current_time() -> Timestamp {
    let t = chrono::Utc::now();
    Timestamp { secs: t.timestamp(), nanos: t.timestamp_subsec_nanos() }
}

impl Timestamp {
    /// The current time.
    pub fn now() -> Timestamp {
        current_time()
    }
}

/// `serde_json::Value`: a JSON value, carried in metadata and never looked
/// into.
#[verifier::external_type_specification]
#[verifier::external_body]
pub struct ExJsonValue(serde_json::Value);

/// One blob's metadata.
#[derive(Debug, Clone)]
pub struct FileRecord {
    pub id: String,
    pub mime_type: String,
    pub file_type: FileType,
    pub byte_size: u64,
    pub permalink: String,
    pub created_at: Timestamp,
    pub updated_at: Timestamp,
    pub alt: Option<String>,
    pub description: Option<String>,
    pub metadata: Option<HashMap<String, serde_json::Value>>,
    pub name: Option<String>,
    pub subject_id: Option<String>,
}

/// What a record holds, as mathematical values.
pub struct FileRecordView {
    pub id: Seq<char>,
    pub mime_type: Seq<char>,
    pub file_type: FileType,
    pub byte_size: u64,
    pub permalink: Seq<char>,
    pub created_at: Timestamp,
    pub updated_at: Timestamp,
    pub alt: Option<Seq<char>>,
    pub description: Option<Seq<char>>,
    pub metadata: Option<Map<String, serde_json::Value>>,
    pub name: Option<Seq<char>>,
    pub subject_id: Option<Seq<char>>,
}

/// The characters of an optional text.
pub open spec fn text_view(t: Option<String>) -> Option<Seq<char>> {
    match t {
        Some(s) => Some(s@),
        None => None,
    }
}

/// The entries of an optional metadata map.
pub open spec fn metadata_view(m: Option<HashMap<String, serde_json::Value>>) -> Option<
    Map<String, serde_json::Value>,
> {
    match m {
        Some(h) => Some(h@),
        None => None,
    }
}

impl View for FileRecord {
    type V = FileRecordView;

    open spec fn view(&self) -> FileRecordView {
        FileRecordView {
            id: self.id@,
            mime_type: self.mime_type@,
            file_type: self.file_type,
            byte_size: self.byte_size,
            permalink: self.permalink@,
            created_at: self.created_at,
            updated_at: self.updated_at,
            alt: text_view(self.alt),
            description: text_view(self.description),
            metadata: metadata_view(self.metadata),
            name: text_view(self.name),
            subject_id: text_view(self.subject_id),
        }
    }
}

/// A copy of an optional text.
pub fn copy_text(t: &Option<String>) -> (r: Option<String>)
    ensures
        r == *t,
{
    match t {
        Some(s) => Some(s.clone()),
        None => None,
    }
}

/// A copy of an optional metadata map, entry for entry.
pub fn copy_metadata(m: &Option<HashMap<String, serde_json::Value>>) -> (r: Option<
    HashMap<String, serde_json::Value>,
>)
    ensures
        metadata_view(r) == metadata_view(*m),
{
    match m {
        Some(h) => Some(h.clone()),
        None => None,
    }
}

/// The records of a list, as mathematical values.
pub open spec fn views(v: Seq<FileRecord>) -> Seq<FileRecordView> {
    v.map_values(|f: FileRecord| f@)
}

/// The characters of an optional borrowed text.
pub open spec fn str_view(t: Option<&str>) -> Option<Seq<char>> {
    match t {
        Some(s) => Some(s@),
        None => None,
    }
}

/// An owned copy of an optional borrowed text.
pub fn own_text(t: Option<&str>) -> (r: Option<String>)
    ensures
        text_view(r) == str_view(t),
{
    match t {
        Some(s) => Some(s.to_owned()),
        None => None,
    }
}

/// Whether an optional borrowed text and an optional owned one hold the same.
pub fn same_optional_text(a: Option<&str>, b: &Option<String>) -> (r: bool)
    ensures
        r == (str_view(a) == text_view(*b)),
{
    match (a, b) {
        (Some(x), Some(y)) => crate::text::same_text(x, y.as_str()),
        (None, None) => true,
        _ => false,
    }
}

impl FileRecord {
    /// A copy that holds the same values.
    pub fn duplicate(&self) -> (r: FileRecord)
        ensures
            r@ == self@,
    {
        FileRecord {
            id: self.id.clone(),
            mime_type: self.mime_type.clone(),
            file_type: self.file_type,
            byte_size: self.byte_size,
            permalink: self.permalink.clone(),
            created_at: self.created_at,
            updated_at: self.updated_at,
            alt: copy_text(&self.alt),
            description: copy_text(&self.description),
            metadata: copy_metadata(&self.metadata),
            name: copy_text(&self.name),
            subject_id: copy_text(&self.subject_id),
        }
    }
}

/// The unit of replication.
#[derive(Debug, Clone)]
pub enum WriteOp {
    CreateFile(FileRecord),
    DeleteFile { id: String },
    UpdateFile {
        id: String,
        alt: Patch<String>,
        description: Patch<String>,
        metadata: Patch<HashMap<String, serde_json::Value>>,
        name: Patch<String>,
        permalink: Option<String>,
        subject_id: Patch<String>,
        /// The time of the update, read once where the operation is made,
        /// so that every node that applies it stamps the record alike.
        updated_at: Timestamp,
    },
}

/// A stored name reads back as the file type it was written for.
pub proof fn lemma_wire_name_reads_back(t: FileType)
    ensures
        FileType::named(t.wire_name()) == Some(t),
{
    reveal_strlit("audio");
    reveal_strlit("binary");
    reveal_strlit("document");
    reveal_strlit("image");
    reveal_strlit("video");
    let a = "audio"@;
    let b = "binary"@;
    let d = "document"@;
    let i = "image"@;
    let v = "video"@;
    assert(a[0] == 'a' && b[0] == 'b' && d[0] == 'd' && i[0] == 'i' && v[0] == 'v');
}

} // verus!
