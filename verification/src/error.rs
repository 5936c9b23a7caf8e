//! What can go wrong underneath the repository.

use vstd::prelude::*;

use crate::text::join;

verus! {

/// `redb::CommitError`: why a commit failed.
#[verifier::external_type_specification]
#[verifier::external_body]
pub struct ExCommitError(redb::CommitError);

/// `redb::StorageError`: why a read or a write of a table failed.
#[verifier::external_type_specification]
#[verifier::external_body]
pub struct ExStorageError(redb::StorageError);

/// `redb::TableError`: why a table could not be opened.
#[verifier::external_type_specification]
#[verifier::external_body]
pub struct ExTableError(redb::TableError);

/// `redb::TransactionError`: why a transaction could not begin.
#[verifier::external_type_specification]
#[verifier::external_body]
pub struct ExTransactionError(redb::TransactionError);

/// `rmp_serde::encode::Error`: why a value could not be written.
#[verifier::external_type_specification]
#[verifier::external_body]
pub struct ExEncodeError(rmp_serde::encode::Error);

/// `rmp_serde::decode::Error`: why bytes could not be read as a value.
#[verifier::external_type_specification]
#[verifier::external_body]
pub struct ExDecodeError(rmp_serde::decode::Error);

/// A storage failure. Each variant carries the store's or the encoder's own
/// error; all of them are fatal to the operation that met them.
#[derive(Debug)]
pub enum DatabaseError {
    /// The transaction could not be committed.
    Commit(Box<redb::CommitError>),
    /// Bytes that the store holds could not be read as a value.
    Deserialization(rmp_serde::decode::Error),
    /// A value could not be written as bytes that read back as the value.
    Serialization(rmp_serde::encode::Error),
    /// Reading or writing a table failed.
    Storage(Box<redb::StorageError>),
    /// A table could not be opened.
    Table(Box<redb::TableError>),
    /// A transaction could not be started.
    Transaction(Box<redb::TransactionError>),
}

/// `Display` of the outside error that a variant carries. Nothing is
/// claimed of the text.
#[verifier::external_body]
fn cause_text(e: &DatabaseError) -> String {
    match e {
        DatabaseError::Commit(e) => e.to_string(),
        DatabaseError::Deserialization(e) => e.to_string(),
        DatabaseError::Serialization(e) => e.to_string(),
        DatabaseError::Storage(e) => e.to_string(),
        DatabaseError::Table(e) => e.to_string(),
        DatabaseError::Transaction(e) => e.to_string(),
    }
}

impl DatabaseError {
    /// The words that an error of this kind begins with.
    pub open spec fn heading(self) -> Seq<char> {
        match self {
            DatabaseError::Commit(_) => "Commit error: "@,
            DatabaseError::Deserialization(_) => "Deserialization error: "@,
            DatabaseError::Serialization(_) => "Serialization error: "@,
            DatabaseError::Storage(_) => "Storage error: "@,
            DatabaseError::Table(_) => "Table error: "@,
            DatabaseError::Transaction(_) => "Transaction error: "@,
        }
    }

    /// The error in words, for logs and responses: the heading of its kind,
    /// then what the store or the encoder says of it.
    pub fn message(&self) -> (r: String)
        ensures
            self.heading().is_prefix_of(r@),
    {
        let cause = cause_text(self);
        match self {
            DatabaseError::Commit(_) => join("Commit error: ", cause.as_str()),
            DatabaseError::Deserialization(_) => join("Deserialization error: ", cause.as_str()),
            DatabaseError::Serialization(_) => join("Serialization error: ", cause.as_str()),
            DatabaseError::Storage(_) => join("Storage error: ", cause.as_str()),
            DatabaseError::Table(_) => join("Table error: ", cause.as_str()),
            DatabaseError::Transaction(_) => join("Transaction error: ", cause.as_str()),
        }
    }
}

} // verus!
