//! What the object store reports back. The stores themselves do I/O and
//! live outside this library; keys are opaque and mean nothing without the
//! metadata that points to them.

use vstd::prelude::*;

use crate::api::ApiError;
use crate::text::join;

verus! {

/// `std::io::Error`: what the file system reports.
#[verifier::external_type_specification]
#[verifier::external_body]
pub struct ExIoError(std::io::Error);

#[derive(Debug)]
pub enum ObjectStoreError {
    Io(std::io::Error),
    NotFound(String),
    Backend(String),
}

/// `Display` of a `std::io::Error`. Nothing is claimed of the text.
#[verifier::external_body]
fn io_error_text(e: &std::io::Error) -> String {
    e.to_string()
}

impl ObjectStoreError {
    /// The error in words.
    pub fn message(&self) -> (r: String)
        ensures
            match *self {
                ObjectStoreError::Io(_) => "IO error: "@.is_prefix_of(r@),
                ObjectStoreError::NotFound(key) => r@ == "Object not found: "@ + key@,
                ObjectStoreError::Backend(m) => r@ == "Backend error: "@ + m@,
            },
    {
        match self {
            ObjectStoreError::Io(e) => {
                let text = io_error_text(e);
                join("IO error: ", text.as_str())
            },
            ObjectStoreError::NotFound(key) => join("Object not found: ", key.as_str()),
            ObjectStoreError::Backend(m) => join("Backend error: ", m.as_str()),
        }
    }
}

/// What a failed read of a blob means for the request that asked for it: a
/// blob that is not there is not found; anything else is an internal error.
pub fn blob_read_error(e: &ObjectStoreError) -> (r: ApiError)
    ensures
        match *e {
            ObjectStoreError::NotFound(_) => r is Fail && r.status() == crate::api::NOT_FOUND && r.text()
                == "File content not found"@,
            _ => r is Error && r.status() == crate::api::INTERNAL_SERVER_ERROR
                && "Failed to retrieve file: "@.is_prefix_of(r.text()),
        },
{
    match e {
        ObjectStoreError::NotFound(_) => ApiError::not_found("File content not found".to_owned()),
        _ => {
            let text = e.message();
            ApiError::internal(join("Failed to retrieve file: ", text.as_str()))
        },
    }
}

/// What a failed write of a blob means for the request that asked for it.
pub fn blob_write_error(e: &ObjectStoreError) -> (r: ApiError)
    ensures
        r is Error,
        r.status() == crate::api::INTERNAL_SERVER_ERROR,
        "Failed to store file: "@.is_prefix_of(r.text()),
{
    let text = e.message();
    ApiError::internal(join("Failed to store file: ", text.as_str()))
}

} // verus!
