//! Every failure leaves the service in the same shape: an HTTP status, a
//! stable machine readable code, and a message for the developer reading it.

use vstd::prelude::*;

verus! {

/// An error on its way back to the client.
#[derive(Clone, Debug)]
pub struct ApiError {
    status: u16,
    code: &'static str,
    message: String,
}

/// What a client sees of an [`ApiError`].
#[verifier::ext_equal]
pub struct ErrorView {
    pub status: u16,
    pub code: Seq<char>,
    pub message: Seq<char>,
}

impl View for ApiError {
    type V = ErrorView;

    closed spec fn view(&self) -> ErrorView {
        ErrorView { status: self.status, code: self.code@, message: self.message@ }
    }
}

/// A result with its value and its error taken by their views.
pub open spec fn outcome<T: View>(result: Result<T, ApiError>) -> Result<T::V, ErrorView> {
    match result {
        Ok(value) => Ok(value@),
        Err(error) => Err(error@),
    }
}

/// The error of a result, where it is one.
pub open spec fn refusal<T>(result: Result<T, ApiError>) -> Option<ErrorView> {
    match result {
        Ok(_) => None,
        Err(error) => Some(error@),
    }
}

/// The request was malformed or asked for something impossible.
pub open spec fn bad_request(message: Seq<char>) -> ErrorView {
    ErrorView { status: 400, code: "invalid_request"@, message }
}

/// There is no such model, or no such path.
pub open spec fn not_found(message: Seq<char>) -> ErrorView {
    ErrorView { status: 404, code: "not_found"@, message }
}

/// The path exists, but not with this method.
pub open spec fn method_not_allowed(message: Seq<char>) -> ErrorView {
    ErrorView { status: 405, code: "method_not_allowed"@, message }
}

/// Too many models held at once.
pub open spec fn conflict(message: Seq<char>) -> ErrorView {
    ErrorView { status: 409, code: "conflict"@, message }
}

/// The engine refused the values.
pub open spec fn engine(message: Seq<char>) -> ErrorView {
    ErrorView { status: 422, code: "engine_error"@, message }
}

/// The server's own fault.
pub open spec fn internal(message: Seq<char>) -> ErrorView {
    ErrorView { status: 500, code: "internal_error"@, message }
}

/// The code of a body that was refused with `status` before it was read as a
/// request.
pub open spec fn rejection_code(status: u16) -> Seq<char> {
    if status == 413 {
        "payload_too_large"@
    } else if status == 415 {
        "unsupported_media_type"@
    } else {
        "invalid_json"@
    }
}

impl ApiError {
    /// The request was malformed or asked for something impossible: 400.
    pub fn bad_request(message: String) -> (error: Self)
        ensures
            error@ == bad_request(message@),
    {
        Self::new(400, "invalid_request", message)
    }

    /// No model with that id: 404.
    pub fn not_found(message: String) -> (error: Self)
        ensures
            error@ == not_found(message@),
    {
        Self::new(404, "not_found", message)
    }

    /// The body parsed, but the engine refused the values: 422.
    pub fn engine(message: String) -> (error: Self)
        ensures
            error@ == engine(message@),
    {
        Self::new(422, "engine_error", message)
    }

    /// The server's own fault: 500.
    pub fn internal(message: String) -> (error: Self)
        ensures
            error@ == internal(message@),
    {
        Self::new(500, "internal_error", message)
    }

    /// The path exists, but not with this method: 405.
    pub fn method_not_allowed(message: String) -> (error: Self)
        ensures
            error@ == method_not_allowed(message@),
    {
        Self::new(405, "method_not_allowed", message)
    }

    /// Too many models held at once: 409.
    pub fn conflict(message: String) -> (error: Self)
        ensures
            error@ == conflict(message@),
    {
        Self::new(409, "conflict", message)
    }

    /// A body the HTTP layer refused with `status`, saying `body_text`: the
    /// same shape as every other error, with a code that tells why.
    pub fn rejected_body(status: u16, body_text: String) -> (error: Self)
        ensures
            error@ == (ErrorView { status, code: rejection_code(status), message: body_text@ }),
    {
        let code = if status == 413 {
            "payload_too_large"
        } else if status == 415 {
            "unsupported_media_type"
        } else {
            "invalid_json"
        };
        Self::new(status, code, body_text)
    }

    fn new(status: u16, code: &'static str, message: String) -> (error: Self)
        ensures
            error@ == (ErrorView { status, code: code@, message: message@ }),
    {
        Self { status, code, message }
    }

    /// The HTTP status.
    pub fn status(&self) -> (status: u16)
        ensures
            status == self@.status,
    {
        self.status
    }

    /// The machine readable code.
    pub fn code(&self) -> (code: &str)
        ensures
            code@ == self@.code,
    {
        self.code
    }

    /// The message for the developer.
    pub fn message(&self) -> (message: &str)
        ensures
            message@ == self@.message,
    {
        self.message.as_str()
    }
}

/// What a panic inside the engine was raised with.
#[derive(Clone, Debug)]
pub enum PanicPayload {
    /// A string literal.
    Literal(String),
    /// A formatted message.
    Formatted(String),
    /// Something that is not text.
    Opaque,
}

/// The text `payload` was given, or a sentence saying it was given none.
pub open spec fn panic_text(payload: PanicPayload) -> Seq<char> {
    match payload {
        PanicPayload::Literal(message) => message@,
        PanicPayload::Formatted(message) => message@,
        PanicPayload::Opaque => "the neural network engine panicked without a message"@,
    }
}

/// The text a panic was given, if it was given text at all.
pub fn panic_message(payload: &PanicPayload) -> (message: String)
    ensures
        message@ == panic_text(*payload),
{
    match payload {
        PanicPayload::Literal(message) => message.clone(),
        PanicPayload::Formatted(message) => message.clone(),
        PanicPayload::Opaque => "the neural network engine panicked without a message".to_owned(),
    }
}

/// The error a request gets when the engine panicked on it: 422, with the
/// engine's own words.
pub fn engine_panic(payload: &PanicPayload) -> (error: ApiError)
    ensures
        error@ == engine(panic_text(*payload)),
{
    ApiError::engine(panic_message(payload))
}

/// The error a request gets when anything else panicked on it: 500.
pub fn handler_panic(payload: &PanicPayload) -> (error: ApiError)
    ensures
        error@ == internal(panic_text(*payload)),
{
    ApiError::internal(panic_message(payload))
}

// --------------------------------------------------------------------- laws

/// Every failure is answered with its own status and code, and with the words
/// it was given.
pub proof fn each_failure_has_its_status(message: Seq<char>)
    ensures
        bad_request(message).status == 400 && bad_request(message).code == "invalid_request"@,
        not_found(message).status == 404 && not_found(message).code == "not_found"@,
        method_not_allowed(message).status == 405 && method_not_allowed(message).code
            == "method_not_allowed"@,
        conflict(message).status == 409 && conflict(message).code == "conflict"@,
        engine(message).status == 422 && engine(message).code == "engine_error"@,
        internal(message).status == 500 && internal(message).code == "internal_error"@,
        bad_request(message).message == message,
        not_found(message).message == message,
        method_not_allowed(message).message == message,
        conflict(message).message == message,
        engine(message).message == message,
        internal(message).message == message,
{
}

/// The code of a body that was refused tells a body that was too large from one
/// of another type, and both from one that is no JSON.
pub proof fn refused_bodies_are_told_apart(status: u16)
    ensures
        rejection_code(413) == "payload_too_large"@,
        rejection_code(415) == "unsupported_media_type"@,
        status != 413 && status != 415 ==> rejection_code(status) == "invalid_json"@,
{
}

/// A panic is answered with the words it was raised with, however it carried
/// them, and with words of its own only where it had none.
pub proof fn a_panic_is_answered_in_its_own_words(message: String)
    ensures
        panic_text(PanicPayload::Literal(message)) == message@,
        panic_text(PanicPayload::Formatted(message)) == message@,
        panic_text(PanicPayload::Opaque) == "the neural network engine panicked without a message"@,
{
}

/// A result is a success or a failure as it is, with its own value or error.
pub proof fn results_are_told_as_they_are<T: View>(value: T, error: ApiError)
    ensures
        outcome(Ok::<T, ApiError>(value)) == Ok::<T::V, ErrorView>(value@),
        outcome(Err::<T, ApiError>(error)) == Err::<T::V, ErrorView>(error@),
        refusal(Ok::<T, ApiError>(value)) is None,
        refusal(Err::<T, ApiError>(error)) == Some(error@),
{
}

} // verus!
