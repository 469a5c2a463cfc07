//! Migration failures.
//!
//! Every failure of an attempt carries a kind from the error taxonomy and a
//! one-line message naming the operation that produced it and its cause.

use vstd::prelude::*;

verus! {

use vstd::string::StringExecFns;

/// The taxonomy of migration failures.
#[derive(Clone, Copy, Debug, PartialEq, Eq, Structural)]
pub enum MigrationErrorKind {
    /// The pristine build rejected the target DDL.
    BadTargetSchema,
    /// A database operation failed.
    Io,
    /// The deletion policy rejected a destructive plan.
    Refused,
    /// An invariant was violated; this represents a bug, not a user error.
    Internal,
}

/// A failed migration attempt: its kind and a human-readable message.
#[derive(Debug)]
pub struct MigrationError {
    pub kind: MigrationErrorKind,
    pub message: String,
}

impl MigrationError {
    /// The message reported when the pristine build rejects the target DDL.
    pub open spec fn bad_target_schema_message(cause: Seq<char>) -> Seq<char> {
        "Failed to create pristine schema: "@ + cause
    }

    /// The message reported when a database operation fails.
    pub open spec fn io_message(operation: Seq<char>, cause: Seq<char>) -> Seq<char> {
        "Migration error: "@ + operation + " failed: "@ + cause
    }

    /// A target DDL the engine rejected.
    pub fn bad_target_schema(cause: &str) -> (r: MigrationError)
        ensures
            r.kind == MigrationErrorKind::BadTargetSchema,
            r.message@ == Self::bad_target_schema_message(cause@),
    {
        let mut message = String::new();
        message.append("Failed to create pristine schema: ");
        message.append(cause);
        MigrationError { kind: MigrationErrorKind::BadTargetSchema, message }
    }

    /// A failed database operation, named together with its cause.
    pub fn io(operation: &str, cause: &str) -> (r: MigrationError)
        ensures
            r.kind == MigrationErrorKind::Io,
            r.message@ == Self::io_message(operation@, cause@),
    {
        let mut message = String::new();
        message.append("Migration error: ");
        message.append(operation);
        message.append(" failed: ");
        message.append(cause);
        MigrationError { kind: MigrationErrorKind::Io, message }
    }

    /// An invariant violation inside the migrator itself.
    pub fn internal(message: String) -> (r: MigrationError)
        ensures
            r.kind == MigrationErrorKind::Internal,
            r.message@ == message@,
    {
        MigrationError { kind: MigrationErrorKind::Internal, message }
    }
}

} // verus!
