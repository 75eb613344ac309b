use vstd::prelude::*;

verus! {

#[verifier::external_type_specification]
#[verifier::external_body]
pub struct ExJsonError(serde_json::Error);

#[verifier::external_type_specification]
#[verifier::external_body]
pub struct ExUuidError(uuid::Error);

/// Errors of the job queue.
#[derive(Debug)]
pub enum RustiqError {
    /// A database operation or a file access failed.
    StorageError(String),
    /// The named queue does not exist.
    QueueNotFound(String),
    /// A JSON value could not be written or read.
    SerializationError(String),
    /// A payload broke the size or validation rules.
    InvalidPayload(String),
    /// No job has this id.
    JobNotFound(u128),
}

/// The lower-case hexadecimal digit for `n`, `0 <= n < 16`.
pub open spec fn hex_digit(n: int) -> char {
    seq!['0', '1', '2', '3', '4', '5', '6', '7', '8', '9', 'a', 'b', 'c', 'd', 'e', 'f'][n]
}

/// The `k`-th of the 32 hexadecimal digits of `id`, most significant first.
pub open spec fn uuid_nibble(id: u128, k: int) -> int {
    (id as nat / vstd::arithmetic::power2::pow2((4 * (31 - k)) as nat)) as int % 16
}

/// Which hexadecimal digit stands at position `i` of the hyphenated text.
pub open spec fn uuid_digit_index(i: int) -> int {
    if i < 8 {
        i
    } else if i < 13 {
        i - 1
    } else if i < 18 {
        i - 2
    } else if i < 23 {
        i - 3
    } else {
        i - 4
    }
}

/// The hyphenated lower-case text of a UUID, such as
/// `67e55044-10b1-426f-9247-bb680e5fe0c8`: its 32 hexadecimal digits, most
/// significant first, in groups of 8, 4, 4, 4 and 12.
pub open spec fn hyphenated_uuid(id: u128) -> Seq<char> {
    Seq::new(
        36,
        |i: int|
            if i == 8 || i == 13 || i == 18 || i == 23 {
                '-'
            } else {
                hex_digit(uuid_nibble(id, uuid_digit_index(i)))
            },
    )
}

/// The text of the UUID whose 128-bit value is `id`, by `uuid::Uuid::from_u128`
/// and `Uuid`'s `Display`.
///
/// Trusted: the text is the hyphenated lower-case form, as the `uuid` crate
/// documents for its `Display` and `from_u128` (big-endian).
#[verifier::external_body]
fn uuid_text(id: u128) -> (res: String)
    ensures
        res@ == hyphenated_uuid(id),
{
    uuid::Uuid::from_u128(id).to_string()
}

/// The text that `serde_json::Error`'s `Display` gives for `err`: its
/// message, followed by the line and column where it was found when the
/// line is known.
pub uninterp spec fn json_error_display(err: serde_json::Error) -> Seq<char>;

/// Whether `err` is a failure to read or write the underlying I/O stream
/// (`serde_json::Error::is_io`).
pub uninterp spec fn json_error_is_io(err: serde_json::Error) -> bool;

/// Whether a JSON error is an I/O failure, by `serde_json::Error::is_io`.
///
/// Trusted: the result is what `is_io` returns, named `json_error_is_io`.
#[verifier::external_body]
fn json_error_is_io_call(err: &serde_json::Error) -> (res: bool)
    ensures
        res == json_error_is_io(*err),
{
    err.is_io()
}

/// Whether a JSON error is a failure of the underlying I/O stream. For every
/// other JSON error, converting it to a `RustiqError` keeps its exact text
/// (`json_error_display`).
pub fn json_error_is_io_failure(err: &serde_json::Error) -> (res: bool)
    ensures
        res == json_error_is_io(*err),
{
    json_error_is_io_call(err)
}

/// The text of a JSON error, by `serde_json::Error`'s `Display`.
///
/// Trusted: for every error but an I/O failure the text is a function of the
/// error alone, named `json_error_display`. The text of an I/O failure holds
/// the operating system's message, which depends on the machine and its
/// locale; nothing is claimed of it.
#[verifier::external_body]
fn json_error_text(err: &serde_json::Error) -> (res: String)
    ensures
        !json_error_is_io(*err) ==> res@ == json_error_display(*err),
{
    err.to_string()
}

/// The text that `uuid::Error`'s `Display` gives for `err`, which describes
/// what was wrong with the parsed input.
pub uninterp spec fn uuid_error_display(err: uuid::Error) -> Seq<char>;

/// The text of a UUID parse error, by `uuid::Error`'s `Display`.
///
/// Trusted: the text is a function of the error alone, named
/// `uuid_error_display`.
#[verifier::external_body]
fn uuid_error_text(err: &uuid::Error) -> (res: String)
    ensures
        res@ == uuid_error_display(*err),
{
    err.to_string()
}

/// `prefix` followed by `rest`.
fn prefixed(prefix: &str, rest: &str) -> (res: String)
    ensures
        res@ == prefix@ + rest@,
{
    let mut text = prefix.to_owned();
    text.append(rest);
    text
}

impl RustiqError {
    /// The human-readable text of the error.
    pub open spec fn spec_message(self) -> Seq<char> {
        match self {
            RustiqError::StorageError(s) => "Storage error: "@ + s@,
            RustiqError::QueueNotFound(s) => "Queue not found: "@ + s@,
            RustiqError::SerializationError(s) => "Serialization error: "@ + s@,
            RustiqError::InvalidPayload(s) => "Invalid payload: "@ + s@,
            RustiqError::JobNotFound(id) => "Job not found: "@ + hyphenated_uuid(id),
        }
    }

    /// The human-readable text of the error.
    pub fn message(&self) -> (res: String)
        ensures
            res@ == self.spec_message(),
    {
        match self {
            RustiqError::StorageError(s) => prefixed("Storage error: ", s.as_str()),
            RustiqError::QueueNotFound(s) => prefixed("Queue not found: ", s.as_str()),
            RustiqError::SerializationError(s) => prefixed("Serialization error: ", s.as_str()),
            RustiqError::InvalidPayload(s) => prefixed("Invalid payload: ", s.as_str()),
            RustiqError::JobNotFound(id) => {
                let text = uuid_text(*id);
                prefixed("Job not found: ", text.as_str())
            },
        }
    }

    /// Storage failures may pass if retried; every other error is terminal.
    pub fn is_recoverable(&self) -> (res: bool)
        ensures
            res == (*self is StorageError),
    {
        match self {
            RustiqError::StorageError(_) => true,
            _ => false,
        }
    }

    /// The error for a malformed UUID whose parser said `detail`.
    pub fn invalid_uuid(detail: String) -> (res: RustiqError)
        ensures
            res matches RustiqError::InvalidPayload(text) && text@ == "Invalid UUID: "@ + detail@,
    {
        RustiqError::InvalidPayload(prefixed("Invalid UUID: ", detail.as_str()))
    }
}

impl From<serde_json::Error> for RustiqError {
    fn from(err: serde_json::Error) -> (res: Self)
        ensures
            res matches RustiqError::SerializationError(text) && (!json_error_is_io(err) ==> text@
                == json_error_display(err)),
    {
        RustiqError::SerializationError(json_error_text(&err))
    }
}

/// The message is text, which a spec function cannot build as a `String`;
/// `from`'s own `ensures` states the message by its view instead.
impl vstd::std_specs::convert::FromSpecImpl<serde_json::Error> for RustiqError {
    open spec fn obeys_from_spec() -> bool {
        false
    }

    open spec fn from_spec(v: serde_json::Error) -> RustiqError {
        vstd::pervasive::arbitrary()
    }
}

impl From<uuid::Error> for RustiqError {
    fn from(err: uuid::Error) -> (res: Self)
        ensures
            res matches RustiqError::InvalidPayload(text) && text@ == "Invalid UUID: "@
                + uuid_error_display(err),
    {
        let detail = uuid_error_text(&err);
        RustiqError::invalid_uuid(detail)
    }
}

/// The message is text, which a spec function cannot build as a `String`;
/// `from`'s own `ensures` states the message by its view instead.
impl vstd::std_specs::convert::FromSpecImpl<uuid::Error> for RustiqError {
    open spec fn obeys_from_spec() -> bool {
        false
    }

    open spec fn from_spec(v: uuid::Error) -> RustiqError {
        vstd::pervasive::arbitrary()
    }
}

} // verus!
