//! The closed set of storage failures that a caller is told of.

use std::io::ErrorKind;
use vstd::prelude::*;
use vstd::string::*;

verus! {

/// The kinds of input and output errors, as the standard library lists
/// them. Verus reads the list; nothing is claimed of it.
#[verifier::external_type_specification]
pub struct ExErrorKind(ErrorKind);

/// A storage failure, classified.
#[derive(Clone, Copy, Debug, PartialEq, Eq, Structural)]
pub enum StorageError {
    /// The file does not exist.
    NotFound,
    /// Permission was denied.
    PermissionDenied,
    /// The pipe is broken.
    BrokenPipe,
    /// The file exists already.
    AlreadyExists,
    /// Any other failure.
    Unknown,
}

/// The class of an error kind: four kinds have a class of their own, every
/// other kind is unknown.
pub open spec fn classified(kind: ErrorKind) -> StorageError {
    match kind {
        ErrorKind::NotFound => StorageError::NotFound,
        ErrorKind::PermissionDenied => StorageError::PermissionDenied,
        ErrorKind::BrokenPipe => StorageError::BrokenPipe,
        ErrorKind::AlreadyExists => StorageError::AlreadyExists,
        _ => StorageError::Unknown,
    }
}

/// The code under which a class is reported.
pub open spec fn code_of(error: StorageError) -> Seq<char> {
    match error {
        StorageError::NotFound => "enoent"@,
        StorageError::PermissionDenied => "eacces"@,
        StorageError::BrokenPipe => "epipe"@,
        StorageError::AlreadyExists => "eexist"@,
        StorageError::Unknown => "unknown"@,
    }
}

impl StorageError {
    /// Classifies an error kind.
    pub fn classify(kind: ErrorKind) -> (error: StorageError)
        ensures
            error == classified(kind),
    {
        match kind {
            ErrorKind::NotFound => StorageError::NotFound,
            ErrorKind::PermissionDenied => StorageError::PermissionDenied,
            ErrorKind::BrokenPipe => StorageError::BrokenPipe,
            ErrorKind::AlreadyExists => StorageError::AlreadyExists,
            _ => StorageError::Unknown,
        }
    }

    /// The code under which this class is reported.
    pub fn code(&self) -> (code: &'static str)
        ensures
            code@ == code_of(*self),
    {
        match self {
            StorageError::NotFound => "enoent",
            StorageError::PermissionDenied => "eacces",
            StorageError::BrokenPipe => "epipe",
            StorageError::AlreadyExists => "eexist",
            StorageError::Unknown => "unknown",
        }
    }
}

} // verus!
