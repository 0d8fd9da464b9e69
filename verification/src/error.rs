//! The error contract that every operation reports through.
use vstd::prelude::*;

use crate::redact::{conceal, concealed, text_without_the_secret_stays};
use crate::text::occurs;

verus! {

/// An error with a stable code, a message for the user, and whether trying again may help.
#[derive(Debug)]
pub struct AppError {
    code: String,
    message: String,
    retryable: bool,
}

/// What an [`AppError`] says.
#[verifier::ext_equal]
pub struct Failure {
    pub code: Seq<char>,
    pub message: Seq<char>,
    pub retryable: bool,
}

impl View for AppError {
    type V = Failure;

    closed spec fn view(&self) -> Failure {
        Failure { code: self.code@, message: self.message@, retryable: self.retryable }
    }
}

/// The failure that trying again does not mend.
pub open spec fn lasting(code: Seq<char>, message: Seq<char>) -> Failure {
    Failure { code, message, retryable: false }
}

/// The failure that may pass.
pub open spec fn passing(code: Seq<char>, message: Seq<char>) -> Failure {
    Failure { code, message, retryable: true }
}

/// `failure` with the marker in place of each `secret`.
pub open spec fn concealed_failure(failure: Failure, secret: Seq<char>) -> Failure {
    Failure {
        code: concealed(failure.code, secret),
        message: concealed(failure.message, secret),
        retryable: failure.retryable,
    }
}

/// `failure`, whose message quotes the shop, with the marker in place of each `secret` there. The
/// code is the program's own and stays.
pub open spec fn quoting_failure(failure: Failure, secret: Seq<char>) -> Failure {
    Failure { message: concealed(failure.message, secret), ..failure }
}

impl AppError {
    /// This error with the marker in place of each `secret`.
    pub fn redacted(self, secret: &str) -> (r: Self)
        ensures
            r@ == concealed_failure(self@, secret@),
    {
        AppError {
            code: conceal(self.code.as_str(), secret),
            message: conceal(self.message.as_str(), secret),
            retryable: self.retryable,
        }
    }

    /// An error that may pass.
    pub fn transient(code: &'static str, message: &'static str) -> (r: Self)
        ensures
            r@ == passing(code@, message@),
    {
        AppError { code: code.to_owned(), message: message.to_owned(), retryable: true }
    }

    /// An error that trying again does not mend.
    pub fn validation(code: &str, message: &str) -> (r: Self)
        ensures
            r@ == lasting(code@, message@),
    {
        AppError { code: code.to_owned(), message: message.to_owned(), retryable: false }
    }

    /// The stable code.
    pub fn code(&self) -> (r: &str)
        ensures
            r@ == self@.code,
    {
        self.code.as_str()
    }

    /// The message for the user.
    pub fn message(&self) -> (r: &str)
        ensures
            r@ == self@.message,
    {
        self.message.as_str()
    }

    /// Whether trying again may help.
    pub fn retryable(&self) -> (r: bool)
        ensures
            r == self@.retryable,
    {
        self.retryable
    }

    /// This error with `message` in place of its own.
    pub(crate) fn with_message(self, message: &str) -> (r: Self)
        ensures
            r@ == (Failure { message: message@, ..self@ }),
    {
        AppError { code: self.code, message: message.to_owned(), retryable: self.retryable }
    }

    /// This error with the marker in place of each `secret` in its message; the code is the
    /// program's own and stays.
    pub(crate) fn with_message_redacted(self, secret: &str) -> (r: Self)
        ensures
            r@ == quoting_failure(self@, secret@),
    {
        let message = conceal(self.message.as_str(), secret);
        self.with_message(message.as_str())
    }

    /// A second copy of this error.
    pub(crate) fn duplicate(&self) -> (r: Self)
        ensures
            r@ == self@,
    {
        AppError {
            code: self.code.clone(),
            message: self.message.clone(),
            retryable: self.retryable,
        }
    }
}

/// The error as it crosses the command boundary.
#[derive(Debug, PartialEq, Eq)]
pub struct AppErrorDto {
    pub code: String,
    pub message: String,
    pub retryable: bool,
}

impl View for AppErrorDto {
    type V = Failure;

    open spec fn view(&self) -> Failure {
        Failure { code: self.code@, message: self.message@, retryable: self.retryable }
    }
}

impl Clone for AppErrorDto {
    fn clone(&self) -> (r: Self)
        ensures
            r == *self,
    {
        AppErrorDto {
            code: self.code.clone(),
            message: self.message.clone(),
            retryable: self.retryable,
        }
    }
}

impl From<AppError> for AppErrorDto {
    fn from(error: AppError) -> (r: Self)
        ensures
            r@ == error@,
    {
        AppErrorDto { code: error.code, message: error.message, retryable: error.retryable }
    }
}

impl vstd::std_specs::convert::FromSpecImpl<AppError> for AppErrorDto {
    open spec fn obeys_from_spec() -> bool {
        true
    }

    closed spec fn from_spec(error: AppError) -> Self {
        AppErrorDto { code: error.code, message: error.message, retryable: error.retryable }
    }
}

impl From<&AppError> for AppErrorDto {
    fn from(error: &AppError) -> (r: Self)
        ensures
            r@ == error@,
    {
        AppErrorDto {
            code: error.code.clone(),
            message: error.message.clone(),
            retryable: error.retryable,
        }
    }
}

impl vstd::std_specs::convert::FromSpecImpl<&AppError> for AppErrorDto {
    open spec fn obeys_from_spec() -> bool {
        true
    }

    closed spec fn from_spec(error: &AppError) -> Self {
        AppErrorDto { code: error.code, message: error.message, retryable: error.retryable }
    }
}

/// An error that does not hold the secret is kept as it is.
pub proof fn failures_without_the_secret_stay(failure: Failure, secret: Seq<char>)
    requires
        secret.len() > 0 ==> !occurs(failure.code, secret) && !occurs(failure.message, secret),
    ensures
        concealed_failure(failure, secret).code == failure.code,
        concealed_failure(failure, secret).message == failure.message,
        concealed_failure(failure, secret).retryable == failure.retryable,
{
    text_without_the_secret_stays(failure.code, secret);
    text_without_the_secret_stays(failure.message, secret);
}

/// A message that does not hold the secret is quoted as it is, under the same code.
pub proof fn quoted_failures_without_the_secret_stay(failure: Failure, secret: Seq<char>)
    requires
        secret.len() > 0 ==> !occurs(failure.message, secret),
    ensures
        quoting_failure(failure, secret).code == failure.code,
        quoting_failure(failure, secret).message == failure.message,
        quoting_failure(failure, secret).retryable == failure.retryable,
{
    text_without_the_secret_stays(failure.message, secret);
}

/// A lasting failure and a passing one hold the code and the message that they are made of, and
/// differ in whether trying again may help.
pub proof fn failures_hold_what_they_are_made_of(code: Seq<char>, message: Seq<char>)
    ensures
        lasting(code, message).code == code,
        lasting(code, message).message == message,
        !lasting(code, message).retryable,
        passing(code, message).code == code,
        passing(code, message).message == message,
        passing(code, message).retryable,
{
}

} // verus!
