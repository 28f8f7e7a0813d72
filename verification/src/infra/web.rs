//! What the HTTP front door answers.

use crate::domain::engine::ReconcileError;
use vstd::prelude::*;
use vstd::string::StringExecFns;

verus! {

/// The status of an answer to a request that was carried out.
pub const STATUS_OK: u16 = 200;

/// The status of an answer to a request that failed, whatever the failure.
pub const STATUS_FAILED: u16 = 500;

/// An answer of the front door: a status and a text.
#[derive(Debug, PartialEq, Eq)]
pub struct Answer {
    pub status: u16,
    pub body: String,
}

/// The text that reports a failure.
pub open spec fn failure_text(description: Seq<char>) -> Seq<char> {
    "Something went wrong: "@ + description
}

/// The answer to a request that failed: the failure's description, under
/// the one status that every failure gets.
pub fn failure(description: &String) -> (answer: Answer)
    ensures
        answer.status == STATUS_FAILED,
        answer.body@ == failure_text(description@),
{
    Answer {
        status: STATUS_FAILED,
        body: String::from_str("Something went wrong: ").concat(description.as_str()),
    }
}

/// The answer to a request that an event was made of: the confirmation if
/// the reconciliation ended well, the failure otherwise.
pub fn answer(result: &Result<(), ReconcileError>, confirmation: &str) -> (answer: Answer)
    ensures
        match *result {
            Ok(_) => answer.status == STATUS_OK && answer.body@ == confirmation@,
            Err(error) => answer.status == STATUS_FAILED && answer.body@ == failure_text(
                error.text(),
            ),
        },
{
    match result {
        Ok(_) => Answer { status: STATUS_OK, body: String::from_str(confirmation) },
        Err(error) => failure(&error.message()),
    }
}

/// The answer to a deploy request.
pub fn deployed(result: &Result<(), ReconcileError>) -> (answer: Answer)
    ensures
        match *result {
            Ok(_) => answer.status == STATUS_OK && answer.body@ == "Application deployed"@,
            Err(error) => answer.status == STATUS_FAILED && answer.body@ == failure_text(
                error.text(),
            ),
        },
{
    answer(result, "Application deployed")
}

/// The answer to a destroy request.
pub fn destroyed(result: &Result<(), ReconcileError>) -> (answer: Answer)
    ensures
        match *result {
            Ok(_) => answer.status == STATUS_OK && answer.body@ == "Application destoyed"@,
            Err(error) => answer.status == STATUS_FAILED && answer.body@ == failure_text(
                error.text(),
            ),
        },
{
    answer(result, "Application destoyed")
}

} // verus!
