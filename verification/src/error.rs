//! The error type shared across the library.

use vstd::prelude::*;

verus! {

/// `std::io::Error`, carried inside `TfError::Io` and never looked into.
#[verifier::external_type_specification]
#[verifier::external_body]
pub struct ExIoError(std::io::Error);

/// `serde_json::Error`, carried inside `TfError::Serde` and never looked into.
#[verifier::external_type_specification]
#[verifier::external_body]
pub struct ExSerdeJsonError(serde_json::Error);

#[derive(Debug)]
pub enum TfError {
    Capture(String),
    Vision(String),
    Inference(String),
    Ocr(String),
    StateMachine(String),
    Recommendation(String),
    Ipc(String),
    Calibration(String),
    WindowNotFound(String),
    TableNotFound(String),
    Config(String),
    Io(std::io::Error),
    Serde(serde_json::Error),
    Other(String),
}

} // verus!
