//! Error taxonomy of the engine, and redaction of server-reported errors.
//!
//! Server-reported errors (command, write, bulk-write) carry free-form
//! messages and detail documents that may embed user data; `redact` blanks
//! those while keeping the machine-readable code and code name.

use vstd::prelude::*;

use crate::document::{Bson, Document};

verus! {

/// What went wrong inside the encryption engine proper.
#[derive(Clone, Copy, Debug, PartialEq, Eq, Structural)]
pub enum CsfleKind {
    /// An integrity tag did not match: the payload was rejected unread.
    Validation,
    /// A payload or response that no well-formed producer emits.
    Malformed,
    /// The algorithm does not apply to the value's type.
    IncompatibleValue,
    /// Contradictory or missing per-call options.
    InvalidOptions,
    /// Auto-encryption was attempted against a view.
    View,
}

/// An error reported by a command as a whole.
#[derive(Clone, Debug, PartialEq)]
pub struct CommandError {
    pub code: i32,
    pub code_name: String,
    pub message: String,
    pub topology_version: Option<Document>,
}

/// An error reported by the write concern of an operation.
#[derive(Clone, Debug, PartialEq)]
pub struct WriteConcernError {
    pub code: i32,
    pub code_name: String,
    pub message: String,
    pub details: Option<Document>,
    pub labels: Vec<String>,
}

/// An error reported for a single write.
#[derive(Clone, Debug, PartialEq)]
pub struct WriteError {
    pub code: i32,
    pub code_name: Option<String>,
    pub message: String,
    pub details: Option<Document>,
}

/// One failed write inside a bulk write.
#[derive(Clone, Debug, PartialEq)]
pub struct BulkWriteError {
    pub index: usize,
    pub code: i32,
    pub code_name: Option<String>,
    pub message: String,
    pub details: Option<Document>,
}

/// Failure of a single write: either the write itself or its write concern.
#[derive(Clone, Debug, PartialEq)]
pub enum WriteFailure {
    WriteConcernError(WriteConcernError),
    WriteError(WriteError),
}

/// Failure of a bulk write.
#[derive(Clone, Debug, PartialEq)]
pub struct BulkWriteFailure {
    pub write_errors: Option<Vec<BulkWriteError>>,
    pub write_concern_error: Option<WriteConcernError>,
    pub inserted_ids: Vec<(usize, Bson)>,
}

/// The kinds of error the engine surfaces.
#[derive(Clone, Debug, PartialEq)]
pub enum ErrorKind {
    /// A server-side command error.
    Command(CommandError),
    /// A server-side write failure.
    Write(WriteFailure),
    /// A server-side bulk-write failure.
    BulkWrite(BulkWriteFailure),
    /// Contradictory configuration handed to a builder.
    Configuration { message: String },
    /// An endpoint could not be reached or its transport failed.
    Network { message: String },
    /// A failure of the encryption engine itself.
    Csfle { kind: CsfleKind, message: String },
    /// A data-key reference that resolves to no key.
    KeyNotFound { message: String },
    /// A credential was rejected.
    Authentication { message: String },
}

/// An engine error with its labels.
#[derive(Clone, Debug, PartialEq)]
pub struct Error {
    pub kind: ErrorKind,
    pub labels: Vec<String>,
}

/// `n` is `o` with its free-form parts blanked.
pub open spec fn spec_command_error_redacted(o: CommandError, n: CommandError) -> bool {
    &&& n.code == o.code
    &&& n.code_name@ == o.code_name@
    &&& n.message@ == "REDACTED"@
    &&& n.topology_version == o.topology_version
}

/// `n` is `o` with its free-form parts blanked.
pub open spec fn spec_wce_redacted(o: WriteConcernError, n: WriteConcernError) -> bool {
    &&& n.code == o.code
    &&& n.code_name@ == o.code_name@
    &&& n.message@ == "REDACTED"@
    &&& n.details is None
    &&& n.labels == o.labels
}

/// `n` is `o` with its free-form parts blanked.
pub open spec fn spec_write_error_redacted(o: WriteError, n: WriteError) -> bool {
    &&& n.code == o.code
    &&& n.code_name == o.code_name
    &&& n.message@ == "REDACTED"@
    &&& n.details is None
}

/// `n` is `o` with its free-form parts blanked.
pub open spec fn spec_bulk_write_error_redacted(o: BulkWriteError, n: BulkWriteError) -> bool {
    &&& n.index == o.index
    &&& n.code == o.code
    &&& n.code_name == o.code_name
    &&& n.message@ == "REDACTED"@
    &&& n.details is None
}

/// `n` is `o` with the free-form parts of every server-reported error blanked.
pub open spec fn spec_kind_redacted(o: ErrorKind, n: ErrorKind) -> bool {
    match o {
        ErrorKind::Command(oc) => n matches ErrorKind::Command(nc) && spec_command_error_redacted(
            oc,
            nc,
        ),
        ErrorKind::Write(WriteFailure::WriteConcernError(ow)) => n matches ErrorKind::Write(
            WriteFailure::WriteConcernError(nw),
        ) && spec_wce_redacted(ow, nw),
        ErrorKind::Write(WriteFailure::WriteError(ow)) => n matches ErrorKind::Write(
            WriteFailure::WriteError(nw),
        ) && spec_write_error_redacted(ow, nw),
        ErrorKind::BulkWrite(ob) => n matches ErrorKind::BulkWrite(nb) && {
            &&& match (ob.write_errors, nb.write_errors) {
                (Some(oes), Some(nes)) => oes@.len() == nes@.len() && forall|i: int|
                    0 <= i < oes@.len() ==> spec_bulk_write_error_redacted(oes@[i], #[trigger] nes@[i]),
                (None, None) => true,
                _ => false,
            }
            &&& match (ob.write_concern_error, nb.write_concern_error) {
                (Some(ow), Some(nw)) => spec_wce_redacted(ow, nw),
                (None, None) => true,
                _ => false,
            }
            &&& nb.inserted_ids == ob.inserted_ids
        },
        _ => n == o,
    }
}

fn redacted_message() -> (r: String)
    ensures
        r@ == "REDACTED"@,
{
    let s: &str = "REDACTED";
    s.to_owned()
}

impl Error {
    /// Wraps a kind and optional labels into an error.
    pub fn new(kind: ErrorKind, labels: Option<Vec<String>>) -> (r: Error)
        ensures
            r.kind == kind,
            match labels {
                Some(l) => r.labels == l,
                None => r.labels@ =~= Seq::<String>::empty(),
            },
    {
        Error {
            kind,
            labels: match labels {
                Some(l) => l,
                None => Vec::new(),
            },
        }
    }

    /// Blanks the free-form message and detail document of every
    /// server-reported error inside; codes and code names stay readable.
    pub fn redact(&mut self)
        ensures
            spec_kind_redacted(old(self).kind, final(self).kind),
            final(self).labels == old(self).labels,
    {
        match &mut self.kind {
            ErrorKind::Command(c) => {
                c.message = redacted_message();
            },
            ErrorKind::Write(WriteFailure::WriteConcernError(w)) => {
                w.message = redacted_message();
                w.details = None;
            },
            ErrorKind::Write(WriteFailure::WriteError(w)) => {
                w.message = redacted_message();
                w.details = None;
            },
            ErrorKind::BulkWrite(b) => {
                match &mut b.write_errors {
                    Some(es) => {
                        let ghost olds = es@;
                        let mut i: usize = 0;
                        while i < es.len()
                            invariant
                                0 <= i <= es@.len(),
                                es@.len() == olds.len(),
                                forall|k: int| 0 <= k < i ==> spec_bulk_write_error_redacted(
                                    olds[k],
                                    #[trigger] es@[k],
                                ),
                                forall|k: int| i <= k < olds.len() ==> es@[k] == olds[k],
                            decreases es@.len() - i,
                        {
                            let msg = redacted_message();
                            let e = &mut es[i];
                            e.message = msg;
                            e.details = None;
                            i += 1;
                        }
                    },
                    None => {},
                }
                match &mut b.write_concern_error {
                    Some(w) => {
                        w.message = redacted_message();
                        w.details = None;
                    },
                    None => {},
                }
            },
            _ => {},
        }
    }

    /// The error code the topology layer reads; write errors are skipped
    /// here on purpose and read through [`write_err_code`].
    pub fn code(&self) -> (r: Option<i32>)
        ensures
            r == spec_error_code(self.kind),
    {
        match &self.kind {
            ErrorKind::Command(c) => Some(c.code),
            ErrorKind::Write(WriteFailure::WriteConcernError(w)) => Some(w.code),
            ErrorKind::BulkWrite(b) => match &b.write_concern_error {
                Some(w) => Some(w.code),
                None => None,
            },
            _ => None,
        }
    }

    /// True when the error is an authentication failure.
    pub fn is_auth_error(&self) -> (r: bool)
        ensures
            r == (self.kind matches ErrorKind::Authentication { .. }),
    {
        matches!(self.kind, ErrorKind::Authentication { .. })
    }

    /// True when the error is a network failure.
    pub fn is_network_error(&self) -> (r: bool)
        ensures
            r == (self.kind matches ErrorKind::Network { .. }),
    {
        matches!(self.kind, ErrorKind::Network { .. })
    }

    /// True when the error comes from the encryption engine itself.
    pub fn is_csfle_error(&self) -> (r: bool)
        ensures
            r == (self.kind matches ErrorKind::Csfle { .. }),
    {
        matches!(self.kind, ErrorKind::Csfle { .. })
    }

    /// True when the error is a server command error.
    pub fn is_command_error(&self) -> (r: bool)
        ensures
            r == (self.kind matches ErrorKind::Command(_)),
    {
        matches!(self.kind, ErrorKind::Command(_))
    }
}

/// The code [`Error::code`] yields: write errors excluded.
pub open spec fn spec_error_code(kind: ErrorKind) -> Option<i32> {
    match kind {
        ErrorKind::Command(c) => Some(c.code),
        ErrorKind::Write(WriteFailure::WriteConcernError(w)) => Some(w.code),
        ErrorKind::BulkWrite(b) => match b.write_concern_error {
            Some(w) => Some(w.code),
            None => None,
        },
        _ => None,
    }
}

/// The code of an error, write errors included.
pub open spec fn spec_write_err_code(kind: ErrorKind) -> Option<i32> {
    match spec_error_code(kind) {
        Some(c) => Some(c),
        None => match kind {
            ErrorKind::Write(WriteFailure::WriteError(w)) => Some(w.code),
            _ => None,
        },
    }
}

/// `Error::code` skips write errors on purpose; this also reads those.
pub fn write_err_code(err: &Error) -> (r: Option<i32>)
    ensures
        r == spec_write_err_code(err.kind),
{
    if let Some(code) = err.code() {
        return Some(code);
    }
    match &err.kind {
        ErrorKind::Write(WriteFailure::WriteError(w)) => Some(w.code),
        _ => None,
    }
}

/// Write-error code the storage layer reports for a uniqueness violation.
pub const DUPLICATE_KEY_CODE: i32 = 11000;

/// Write-error code for a document over the storage layer's hard size limit.
pub const OVERSIZE_DOCUMENT_CODE: i32 = 10334;

/// A duplicate-key write error, as the key vault's unique index reports it.
pub fn duplicate_key_error() -> (r: Error)
    ensures
        r.kind matches ErrorKind::Write(WriteFailure::WriteError(w)) && w.code
            == DUPLICATE_KEY_CODE,
        spec_write_err_code(r.kind) == Some(DUPLICATE_KEY_CODE),
{
    let code_name: &str = "DuplicateKey";
    let message: &str = "E11000 duplicate key error";
    Error {
        kind: ErrorKind::Write(
            WriteFailure::WriteError(
                WriteError {
                    code: DUPLICATE_KEY_CODE,
                    code_name: Some(code_name.to_owned()),
                    message: message.to_owned(),
                    details: None,
                },
            ),
        ),
        labels: Vec::new(),
    }
}

/// An oversize-document write error.
pub fn oversize_document_error() -> (r: Error)
    ensures
        r.kind matches ErrorKind::Write(WriteFailure::WriteError(w)) && w.code
            == OVERSIZE_DOCUMENT_CODE,
{
    let code_name: &str = "BSONObjectTooLarge";
    let message: &str = "object to insert too large";
    Error {
        kind: ErrorKind::Write(
            WriteFailure::WriteError(
                WriteError {
                    code: OVERSIZE_DOCUMENT_CODE,
                    code_name: Some(code_name.to_owned()),
                    message: message.to_owned(),
                    details: None,
                },
            ),
        ),
        labels: Vec::new(),
    }
}

} // verus!
