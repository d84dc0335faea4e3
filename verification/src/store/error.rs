//! What can go wrong with a store.

use vstd::prelude::*;
use vstd::string::*;

use crate::text;

verus! {

/// An error of a store. Causes from outside are carried as their text.
pub enum StoreError {
    Database(String),
    Io(String),
    Serialization(String),
    InvalidUuid(String),
    InvalidEventType(String),
    Other(String),
}

/// The words of an error.
pub open spec fn store_error_words(e: StoreError) -> Seq<char> {
    match e {
        StoreError::Database(c) => "Database error: "@ + c@,
        StoreError::Io(c) => "IO error: "@ + c@,
        StoreError::Serialization(c) => "Serialization error: "@ + c@,
        StoreError::InvalidUuid(c) => "Invalid UUID: "@ + c@,
        StoreError::InvalidEventType(c) => "Invalid event type: "@ + c@,
        StoreError::Other(c) => "Other: "@ + c@,
    }
}

impl StoreError {
    /// The error in words.
    pub fn message(&self) -> (out: String)
        ensures
            out@ == store_error_words(*self),
    {
        match self {
            StoreError::Database(c) => text::cat2("Database error: ", c.as_str()),
            StoreError::Io(c) => text::cat2("IO error: ", c.as_str()),
            StoreError::Serialization(c) => text::cat2("Serialization error: ", c.as_str()),
            StoreError::InvalidUuid(c) => text::cat2("Invalid UUID: ", c.as_str()),
            StoreError::InvalidEventType(c) => text::cat2("Invalid event type: ", c.as_str()),
            StoreError::Other(c) => text::cat2("Other: ", c.as_str()),
        }
    }
}

/// An error is told by its kind and its cause: the cause stands at the end, behind
/// a colon and a space, and before them what kind it is.
pub proof fn law_error_names_its_cause(e: &StoreError, out: String)
    requires
        call_ensures(StoreError::message, (e,), out),
    ensures
        match *e {
            StoreError::Database(c) => ("Database error"@ + ": "@ + c@) == out@,
            StoreError::Io(c) => ("IO error"@ + ": "@ + c@) == out@,
            StoreError::Serialization(c) => ("Serialization error"@ + ": "@ + c@) == out@,
            StoreError::InvalidUuid(c) => ("Invalid UUID"@ + ": "@ + c@) == out@,
            StoreError::InvalidEventType(c) => ("Invalid event type"@ + ": "@ + c@) == out@,
            StoreError::Other(c) => ("Other"@ + ": "@ + c@) == out@,
        },
{
    reveal_strlit(": ");
    match e {
        StoreError::Database(c) => {
            reveal_strlit("Database error");
            reveal_strlit("Database error: ");
            assert("Database error"@ + ": "@ + c@ =~= out@);
        },
        StoreError::Io(c) => {
            reveal_strlit("IO error");
            reveal_strlit("IO error: ");
            assert("IO error"@ + ": "@ + c@ =~= out@);
        },
        StoreError::Serialization(c) => {
            reveal_strlit("Serialization error");
            reveal_strlit("Serialization error: ");
            assert("Serialization error"@ + ": "@ + c@ =~= out@);
        },
        StoreError::InvalidUuid(c) => {
            reveal_strlit("Invalid UUID");
            reveal_strlit("Invalid UUID: ");
            assert("Invalid UUID"@ + ": "@ + c@ =~= out@);
        },
        StoreError::InvalidEventType(c) => {
            reveal_strlit("Invalid event type");
            reveal_strlit("Invalid event type: ");
            assert("Invalid event type"@ + ": "@ + c@ =~= out@);
        },
        StoreError::Other(c) => {
            reveal_strlit("Other");
            reveal_strlit("Other: ");
            assert("Other"@ + ": "@ + c@ =~= out@);
        },
    }
}

} // verus!
