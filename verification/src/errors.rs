//! The closed error taxonomy shared by every backend, and its stable
//! integer exit codes.

use vstd::prelude::*;

verus! {

/// One kind per failure point of the pipeline.  The set is closed: a test
/// harness may assert on the corresponding exit codes.
#[derive(Clone, Copy, Debug, PartialEq, Eq, Structural)]
pub enum ErrorType {
    SessionCreation,
    Optimization,
    Threads,
    ModelLoad,
    ImageLoad,
    ImageConversion,
    ModelRun,
    TensorExtract,
    NoResult,
    MissingImageName,
}

/// The exit code documented for each error kind, stable across backends.
pub open spec fn error_code(error: ErrorType) -> int {
    match error {
        ErrorType::SessionCreation => -1,
        ErrorType::Optimization => -2,
        ErrorType::Threads => -3,
        ErrorType::ModelLoad => -4,
        ErrorType::ImageLoad => -5,
        ErrorType::ImageConversion => -6,
        ErrorType::ModelRun => -7,
        ErrorType::TensorExtract => -8,
        ErrorType::NoResult => -9,
        ErrorType::MissingImageName => -10,
    }
}

/// Maps an error kind to its negative exit code.
pub fn get_error_code(error: ErrorType) -> (code: i32)
    ensures
        code == error_code(error),
        -10 <= code <= -1,
{
    match error {
        ErrorType::SessionCreation => -1,
        ErrorType::Optimization => -2,
        ErrorType::Threads => -3,
        ErrorType::ModelLoad => -4,
        ErrorType::ImageLoad => -5,
        ErrorType::ImageConversion => -6,
        ErrorType::ModelRun => -7,
        ErrorType::TensorExtract => -8,
        ErrorType::NoResult => -9,
        ErrorType::MissingImageName => -10,
    }
}

} // verus!
