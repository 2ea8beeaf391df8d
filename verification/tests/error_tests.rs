use csfle::document::{Bson, Document};
use csfle::error::{
    write_err_code, BulkWriteError, BulkWriteFailure, CommandError, Error, ErrorKind,
    WriteConcernError, WriteError, WriteFailure,
};

fn details_doc() -> Document {
    let mut d = Document::new();
    d.insert("x".to_string(), Bson::Int32(1));
    d
}

fn assert_on_properties(code: i32, code_name: String, message: String, details: Option<Document>) {
    assert!(code != 0, "Error code should be non-zero");
    assert!(!code_name.is_empty(), "Error code name should be non-empty");
    assert!(
        !code_name.contains("REDACTED"),
        "Error code name should not be redacted"
    );
    assert!(message == "REDACTED", "Error message should be redacted");
    assert!(details.is_none(), "Error details should be redacted");
}

fn assert_is_redacted(error: Error) {
    match error.kind {
        ErrorKind::Command(CommandError {
            code,
            code_name,
            message,
            ..
        }) => {
            assert_on_properties(code, code_name, message, None);
        }
        ErrorKind::Write(write_failure) => match write_failure {
            WriteFailure::WriteConcernError(WriteConcernError {
                code,
                code_name,
                message,
                details,
                ..
            }) => {
                assert_on_properties(code, code_name, message, details);
            }
            WriteFailure::WriteError(WriteError {
                code,
                code_name,
                message,
                details,
            }) => {
                assert_on_properties(code, code_name.unwrap(), message, details);
            }
        },
        ErrorKind::BulkWrite(BulkWriteFailure {
            write_errors,
            write_concern_error,
            ..
        }) => {
            if let Some(write_errors) = write_errors {
                for BulkWriteError {
                    code,
                    code_name,
                    message,
                    details,
                    ..
                } in write_errors
                {
                    assert_on_properties(code, code_name.unwrap(), message, details);
                }
            }
            if let Some(WriteConcernError {
                code,
                code_name,
                message,
                details,
                ..
            }) = write_concern_error
            {
                assert_on_properties(code, code_name, message, details);
            }
        }
        _ => {}
    }
}

#[test]
fn error_redaction() {
    let labels: Option<Vec<String>> = None;

    let mut command_error = Error::new(
        ErrorKind::Command(CommandError {
            code: 123,
            code_name: "CodeName".to_string(),
            message: "Hello".to_string(),
            topology_version: None,
        }),
        labels.clone(),
    );
    command_error.redact();
    assert_is_redacted(command_error);

    let wce = WriteConcernError {
        code: 123,
        code_name: "CodeName".to_string(),
        message: "Hello".to_string(),
        details: Some(details_doc()),
        labels: vec![],
    };
    let wce_copy = wce.clone();

    let mut write_concern_error = Error::new(
        ErrorKind::Write(WriteFailure::WriteConcernError(wce)),
        labels.clone(),
    );
    write_concern_error.redact();
    assert_is_redacted(write_concern_error);

    let mut write_error = Error::new(
        ErrorKind::Write(WriteFailure::WriteError(WriteError {
            code: 123,
            code_name: Some("CodeName".to_string()),
            message: "Hello".to_string(),
            details: Some(details_doc()),
        })),
        labels.clone(),
    );
    write_error.redact();
    assert_is_redacted(write_error);

    let mut bulk_write_error = Error::new(
        ErrorKind::BulkWrite(BulkWriteFailure {
            write_errors: Some(vec![BulkWriteError {
                index: 0,
                code: 123,
                code_name: Some("CodeName".to_string()),
                message: "Hello".to_string(),
                details: Some(details_doc()),
            }]),
            write_concern_error: Some(wce_copy),
            inserted_ids: Vec::new(),
        }),
        labels,
    );
    bulk_write_error.redact();
    assert_is_redacted(bulk_write_error);
}

#[test]
fn write_err_code_reads_write_errors() {
    let err = Error::new(
        ErrorKind::Write(WriteFailure::WriteError(WriteError {
            code: 11000,
            code_name: Some("DuplicateKey".to_string()),
            message: "duplicate".to_string(),
            details: None,
        })),
        None,
    );
    assert_eq!(err.code(), None);
    assert_eq!(write_err_code(&err), Some(11000));
}

#[test]
fn code_reads_command_and_write_concern_errors() {
    let command = Error::new(
        ErrorKind::Command(CommandError {
            code: 123,
            code_name: "CodeName".to_string(),
            message: "Hello".to_string(),
            topology_version: None,
        }),
        None,
    );
    assert_eq!(command.code(), Some(123));

    let concern = Error::new(
        ErrorKind::Write(WriteFailure::WriteConcernError(WriteConcernError {
            code: 64,
            code_name: "WriteConcernFailed".to_string(),
            message: "timed out".to_string(),
            details: None,
            labels: vec![],
        })),
        None,
    );
    assert_eq!(concern.code(), Some(64));
    assert_eq!(write_err_code(&concern), Some(64));
}

#[test]
fn error_kind_predicates() {
    let auth = Error::new(
        ErrorKind::Authentication {
            message: "rejected".to_string(),
        },
        None,
    );
    assert!(auth.is_auth_error());
    assert!(!auth.is_network_error());
    assert!(!auth.is_csfle_error());
    assert!(!auth.is_command_error());

    let network = Error::new(
        ErrorKind::Network {
            message: "unreachable".to_string(),
        },
        None,
    );
    assert!(network.is_network_error());
}
