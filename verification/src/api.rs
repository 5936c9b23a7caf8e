//! What the HTTP surface decides without touching the network: the response
//! envelopes, the errors and their status codes, pagination, and the header
//! values for served content.

use vstd::prelude::*;
use vstd::string::StrSliceExecFns;

use crate::models::{views, FileRecord};
use crate::text::{chars_of, join, join3};

verus! {

pub const BAD_REQUEST: u16 = 400;

pub const NOT_FOUND: u16 = 404;

pub const CONFLICT: u16 = 409;

pub const PAYLOAD_TOO_LARGE: u16 = 413;

pub const INTERNAL_SERVER_ERROR: u16 = 500;

pub const SERVICE_UNAVAILABLE: u16 = 503;

#[derive(Debug, Clone, Copy, PartialEq, Eq, Structural)]
pub enum JSendStatus {
    Error,
    Fail,
    Success,
}

/// The envelope of a client error (4xx).
#[derive(Debug)]
pub struct JSendFail {
    pub data: FailData,
    pub status: JSendStatus,
}

#[derive(Debug)]
pub struct FailData {
    pub message: String,
}

/// The envelope of a server error (5xx).
#[derive(Debug)]
pub struct JSendError {
    pub message: String,
    pub status: JSendStatus,
}

#[derive(Debug, Clone, Copy, PartialEq, Eq, Structural)]
pub struct Pagination {
    pub limit: u32,
    pub offset: u32,
    pub total: u64,
}

#[derive(Debug)]
pub struct ListFilesParams {
    pub limit: u32,
    pub offset: u32,
    pub file_type: Option<String>,
    pub subject_id: Option<String>,
}

#[derive(Debug)]
pub struct HealthResponse {
    pub status: String,
    pub version: String,
}

#[derive(Debug)]
pub struct PurgeResponse {
    pub files_deleted: u64,
}

/// The page size of a listing that names none.
pub fn default_limit() -> (r: u32)
    ensures
        r == 20,
{
    20
}

impl JSendFail {
    pub fn response(status_code: u16, message: String) -> (r: (u16, JSendFail))
        ensures
            r.0 == status_code,
            r.1.data.message == message,
            r.1.status == JSendStatus::Fail,
    {
        (status_code, JSendFail { data: FailData { message }, status: JSendStatus::Fail })
    }
}

impl JSendError {
    pub fn response(status_code: u16, message: String) -> (r: (u16, JSendError))
        ensures
            r.0 == status_code,
            r.1.message == message,
            r.1.status == JSendStatus::Error,
    {
        (status_code, JSendError { message, status: JSendStatus::Error })
    }
}

/// An error that becomes either a fail (4xx) or an error (5xx) envelope,
/// with its status code and message.
#[derive(Debug)]
pub enum ApiError {
    Fail(u16, String),
    Error(u16, String),
}

impl ApiError {
    pub fn bad_request(message: String) -> (r: Self)
        ensures
            r == ApiError::Fail(BAD_REQUEST, message),
    {
        ApiError::Fail(BAD_REQUEST, message)
    }

    pub fn not_found(message: String) -> (r: Self)
        ensures
            r == ApiError::Fail(NOT_FOUND, message),
    {
        ApiError::Fail(NOT_FOUND, message)
    }

    pub fn payload_too_large(message: String) -> (r: Self)
        ensures
            r == ApiError::Fail(PAYLOAD_TOO_LARGE, message),
    {
        ApiError::Fail(PAYLOAD_TOO_LARGE, message)
    }

    pub fn conflict(message: String) -> (r: Self)
        ensures
            r == ApiError::Fail(CONFLICT, message),
    {
        ApiError::Fail(CONFLICT, message)
    }

    pub fn unavailable(message: String) -> (r: Self)
        ensures
            r == ApiError::Fail(SERVICE_UNAVAILABLE, message),
    {
        ApiError::Fail(SERVICE_UNAVAILABLE, message)
    }

    pub fn internal(message: String) -> (r: Self)
        ensures
            r == ApiError::Error(INTERNAL_SERVER_ERROR, message),
    {
        ApiError::Error(INTERNAL_SERVER_ERROR, message)
    }

    /// The status code of the response.
    pub open spec fn status(self) -> u16 {
        match self {
            ApiError::Fail(code, _) => code,
            ApiError::Error(code, _) => code,
        }
    }

    /// The message of the response.
    pub open spec fn text(self) -> Seq<char> {
        match self {
            ApiError::Fail(_, m) => m@,
            ApiError::Error(_, m) => m@,
        }
    }
}

/// Why the replication layer did not take an operation.
#[derive(Debug)]
pub enum ReplicationError {
    /// This node is not the leader, or there is none.
    NotLeader,
    /// A quorum could not be reached.
    NoQuorum,
    /// Anything else, in words.
    Other(String),
}

/// Map a replication error to an API error: a missing leader or quorum can
/// be retried and is reported as unavailable; anything else is internal.
pub fn replication_error(e: ReplicationError) -> (r: ApiError)
    ensures
        match e {
            ReplicationError::NotLeader => r is Fail && r.status() == SERVICE_UNAVAILABLE && r.text()
                == "No leader available \u{2014} retry shortly"@,
            ReplicationError::NoQuorum => r is Fail && r.status() == SERVICE_UNAVAILABLE && r.text()
                == "Failed to reach quorum for replication"@,
            ReplicationError::Other(m) => r == ApiError::Error(INTERNAL_SERVER_ERROR, m),
        },
{
    match e {
        ReplicationError::NotLeader => ApiError::unavailable(
            "No leader available \u{2014} retry shortly".to_owned(),
        ),
        ReplicationError::NoQuorum => ApiError::unavailable(
            "Failed to reach quorum for replication".to_owned(),
        ),
        ReplicationError::Other(m) => ApiError::internal(m),
    }
}

/// `s` with every match of `from`, found left to right and not overlapping,
/// turned into `to`.
pub open spec fn replaced(s: Seq<char>, from: Seq<char>, to: Seq<char>) -> Seq<char>
    recommends
        from.len() > 0,
    decreases s.len(),
{
    if from.len() == 0 || s.len() < from.len() {
        s
    } else if s.take(from.len() as int) == from {
        to + replaced(s.skip(from.len() as int), from, to)
    } else {
        seq![s[0]] + replaced(s.skip(1), from, to)
    }
}

/// `str::replace` with a pattern that is not empty. Claimed: every match,
/// left to right and not overlapping, is replaced.
#[verifier::external_body]
fn replace_all(s: &str, from: &str, to: &str) -> (r: String)
    requires
        from@.len() > 0,
    ensures
        r@ == replaced(s@, from@, to@),
{
    s.replace(from, to)
}

/// A parser's complaint about a query string, with its type names put in
/// plain words.
pub open spec fn friendly(raw: Seq<char>) -> Seq<char> {
    let a = replaced(raw, "u32"@, "non-negative integer"@);
    let b = replaced(a, "u64"@, "non-negative integer"@);
    let c = replaced(b, "i32"@, "integer"@);
    let d = replaced(c, "i64"@, "integer"@);
    "Invalid query parameter: "@ + d
}

/// Translate a parser's error message into a human-friendly description.
pub fn friendly_query_error(raw: &str) -> (r: String)
    ensures
        r@ == friendly(raw@),
{
    proof {
        reveal_strlit("u32");
        reveal_strlit("u64");
        reveal_strlit("i32");
        reveal_strlit("i64");
    }
    let a = replace_all(raw, "u32", "non-negative integer");
    let b = replace_all(a.as_str(), "u64", "non-negative integer");
    let c = replace_all(b.as_str(), "i32", "integer");
    let d = replace_all(c.as_str(), "i64", "integer");
    join("Invalid query parameter: ", d.as_str())
}

/// One page of a listing.
#[derive(Debug)]
pub struct Page {
    pub items: Vec<FileRecord>,
    pub pagination: Pagination,
}

/// Where a page starts in a listing of `total` records.
pub open spec fn page_start(total: nat, offset: u32) -> int {
    if offset <= total {
        offset as int
    } else {
        total as int
    }
}

/// Where a page ends in a listing of `total` records.
pub open spec fn page_end(total: nat, offset: u32, limit: u32) -> int {
    if offset + limit <= total {
        offset + limit
    } else {
        total as int
    }
}

/// Cut one page out of a listing: `limit` records from `offset` on, or as
/// many as there are.
pub fn paginate(files: &Vec<FileRecord>, offset: u32, limit: u32) -> (r: Page)
    ensures
        views(r.items@) == views(files@).subrange(
            page_start(files@.len(), offset),
            page_end(files@.len(), offset, limit),
        ),
        r.pagination.limit == limit,
        r.pagination.offset == offset,
        r.pagination.total == files@.len(),
{
    let n = files.len();
    let start: usize = if (offset as usize) <= n {
        offset as usize
    } else {
        n
    };
    let end: usize = if (limit as usize) <= n - start {
        start + limit as usize
    } else {
        n
    };
    let mut items: Vec<FileRecord> = Vec::new();
    let mut i: usize = start;
    assert(views(items@) =~= views(files@).subrange(start as int, start as int));
    while i < end
        invariant
            start <= i <= end <= n,
            n == files.len(),
            views(items@) == views(files@).subrange(start as int, i as int),
        decreases end - i,
    {
        let ghost before = items@;
        items.push(files[i].duplicate());
        assert(views(items@) =~= views(before).push(files@[i as int]@));
        assert(views(files@).subrange(start as int, i + 1) =~= views(files@).subrange(start as int, i as int).push(
            files@[i as int]@,
        ));
        i += 1;
    }
    Page { items, pagination: Pagination { limit, offset, total: n as u64 } }
}

/// Length of the longest suffix of `s` that holds no `/`.
pub open spec fn tail_len(s: Seq<char>) -> nat
    decreases s.len(),
{
    if s.len() == 0 || s.last() == '/' {
        0
    } else {
        1 + tail_len(s.drop_last())
    }
}

/// The last segment of a permalink: what follows its last `/`, or all of it
/// where it has none.
pub open spec fn last_segment(permalink: Seq<char>) -> Seq<char> {
    permalink.skip(permalink.len() - tail_len(permalink))
}

proof fn lemma_tail_len(s: Seq<char>, n: int)
    requires
        0 <= n <= s.len(),
        forall|i: int| s.len() - n <= i < s.len() ==> s[i] != '/',
        n == s.len() || s[s.len() - n - 1] == '/',
    ensures
        tail_len(s) == n,
    decreases s.len(),
{
    if s.len() == 0 || s.last() == '/' {
    } else {
        let t = s.drop_last();
        assert forall|i: int| t.len() - (n - 1) <= i < t.len() implies t[i] != '/' by {
            assert(t[i] == s[i]);
        }
        if n - 1 != t.len() {
            assert(t[t.len() - (n - 1) - 1] == s[s.len() - n - 1]);
        }
        lemma_tail_len(t, n - 1);
    }
}

/// The file name under which served content is offered: the last segment
/// of its permalink.
pub fn file_name_of(permalink: &str) -> (r: String)
    ensures
        r@ == last_segment(permalink@),
{
    let v = chars_of(permalink);
    let mut start: usize = v.len();
    while start > 0 && v[start - 1] != '/'
        invariant
            start <= v.len(),
            forall|i: int| start <= i < v.len() ==> v@[i] != '/',
        decreases start,
    {
        start -= 1;
    }
    proof {
        lemma_tail_len(v@, v.len() - start);
    }
    permalink.substring_char(start, v.len()).to_owned()
}

/// The `Content-Disposition` of served content.
pub fn content_disposition(permalink: &str) -> (r: String)
    ensures
        r@ == "inline; filename=\""@ + last_segment(permalink@) + "\""@,
{
    let name = file_name_of(permalink);
    join3("inline; filename=\"", name.as_str(), "\"")
}

/// The `Cache-Control` of served content: blobs never change once they are
/// uploaded, only their metadata does.
pub fn cache_control() -> (r: &'static str)
    ensures
        r@ == "public, max-age=3600"@,
{
    "public, max-age=3600"
}

} // verus!
