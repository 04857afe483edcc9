//! The library's error type, its messages, and the HTTP answer each error
//! is given.
use vstd::prelude::*;
use crate::text::push_str;

verus! {

/// Everything that can go wrong while serving a request.
///
/// Errors raised by the database, the file system or JSON handling carry the
/// message of the underlying error.
#[derive(Debug)]
pub enum Error {
    StorageNotFound(String),
    StorageFull(String),
    StorageUnavailable(String),
    NoAvailablePool,
    ObjectNotFound(String),
    ObjectCorrupted(String),
    BucketNotFound(String),
    BucketAlreadyExists(String),
    BucketNotEmpty(String),
    DatabaseError(String),
    DatabaseMigrationError(String),
    AuthenticationFailed(String),
    SignatureMismatch,
    AccessDenied,
    InvalidAccessKey,
    InvalidRequest(String),
    InvalidHeaderValue(String),
    MissingHeader(String),
    ContentLengthMismatch,
    InvalidPartOrder,
    InvalidPartSize,
    UploadNotFound(String),
    PartNotFound(String),
    ConfigurationError(String),
    IoError(String),
    SerializationError(String),
    InternalError(String),
    DecryptionError(String),
    InvalidRange,
    SlowDown,
    PreSignedUrlExpired,
}

/// The text of an error, as its display writes it.
pub open spec fn error_message(e: Error) -> Seq<char> {
    match e {
        Error::StorageNotFound(p) => "Storage pool not found: "@ + p@,
        Error::StorageFull(p) => "Storage pool full: "@ + p@,
        Error::StorageUnavailable(p) => "Storage pool unavailable: "@ + p@,
        Error::NoAvailablePool => "No available storage pool"@,
        Error::ObjectNotFound(k) => "Object not found: "@ + k@,
        Error::ObjectCorrupted(k) => "Object corrupted: "@ + k@,
        Error::BucketNotFound(b) => "Bucket not found: "@ + b@,
        Error::BucketAlreadyExists(b) => "Bucket already exists: "@ + b@,
        Error::BucketNotEmpty(b) => "Bucket not empty: "@ + b@,
        Error::DatabaseError(e) => "Database error: "@ + e@,
        Error::DatabaseMigrationError(e) => "Migration error: "@ + e@,
        Error::AuthenticationFailed(e) => "Authentication failed: "@ + e@,
        Error::SignatureMismatch => "Signature mismatch"@,
        Error::AccessDenied => "Access denied"@,
        Error::InvalidAccessKey => "Invalid access key"@,
        Error::InvalidRequest(e) => "Invalid request: "@ + e@,
        Error::InvalidHeaderValue(e) => "Invalid header value: "@ + e@,
        Error::MissingHeader(h) => "Missing header: "@ + h@,
        Error::ContentLengthMismatch => "Content length mismatch"@,
        Error::InvalidPartOrder => "Invalid part order"@,
        Error::InvalidPartSize => "Invalid part size"@,
        Error::UploadNotFound(id) => "Upload not found: "@ + id@,
        Error::PartNotFound(id) => "Part not found: "@ + id@,
        Error::ConfigurationError(e) => "Configuration error: "@ + e@,
        Error::IoError(e) => "I/O error: "@ + e@,
        Error::SerializationError(e) => "Serialization error: "@ + e@,
        Error::InternalError(e) => "Internal error: "@ + e@,
        Error::DecryptionError(e) => "Decryption error: "@ + e@,
        Error::InvalidRange => "Invalid range"@,
        Error::SlowDown => "Slow down"@,
        Error::PreSignedUrlExpired => "Pre-signed URL expired"@,
    }
}

/// The HTTP status an error is answered with.
pub open spec fn error_status(e: Error) -> u16 {
    match e {
        Error::StorageNotFound(_) | Error::ObjectNotFound(_) | Error::BucketNotFound(_) => 404,
        Error::BucketAlreadyExists(_) | Error::BucketNotEmpty(_) => 409,
        Error::StorageFull(_) | Error::NoAvailablePool => 503,
        Error::AuthenticationFailed(_) => 401,
        Error::SignatureMismatch | Error::InvalidAccessKey | Error::AccessDenied => 403,
        Error::InvalidRequest(_) | Error::InvalidHeaderValue(_) | Error::MissingHeader(_)
        | Error::ContentLengthMismatch | Error::InvalidPartOrder | Error::InvalidPartSize => 400,
        Error::UploadNotFound(_) => 404,
        _ => 500,
    }
}

/// The error code an error is answered with.
pub open spec fn error_code(e: Error) -> Seq<char> {
    match e {
        Error::StorageNotFound(_) | Error::ObjectNotFound(_) | Error::BucketNotFound(_) => "NoSuchKey"@,
        Error::BucketAlreadyExists(_) => "BucketAlreadyExists"@,
        Error::BucketNotEmpty(_) => "BucketNotEmpty"@,
        Error::StorageFull(_) | Error::NoAvailablePool => "StorageFull"@,
        Error::AuthenticationFailed(_) => "InvalidAccessKeyId"@,
        Error::SignatureMismatch | Error::InvalidAccessKey => "SignatureDoesNotMatch"@,
        Error::AccessDenied => "AccessDenied"@,
        Error::InvalidRequest(_) | Error::InvalidHeaderValue(_) | Error::MissingHeader(_) => "InvalidRequest"@,
        Error::ContentLengthMismatch => "IncompleteBody"@,
        Error::InvalidPartOrder => "InvalidPartOrder"@,
        Error::InvalidPartSize => "InvalidPart"@,
        Error::UploadNotFound(_) => "NoSuchUpload"@,
        _ => "InternalError"@,
    }
}

/// Whether an error is answered as an internal error, with a generic message.
pub open spec fn is_internal(e: Error) -> bool {
    error_status(e) == 500
}

/// The message an error is answered with: its own text, or a generic text
/// for internal errors, so that their details are not shown to clients.
pub open spec fn error_response_message(e: Error) -> Seq<char> {
    if is_internal(e) {
        "An internal error occurred"@
    } else {
        error_message(e)
    }
}

fn with_payload(prefix: &str, payload: &String) -> (r: String)
    ensures
        r@ == prefix@ + payload@,
{
    let mut s = String::new();
    push_str(&mut s, prefix);
    push_str(&mut s, payload.as_str());
    s
}

fn literal(text: &str) -> (r: String)
    ensures
        r@ == text@,
{
    let mut s = String::new();
    push_str(&mut s, text);
    s
}

impl Error {
    /// The text of the error.
    pub fn message(&self) -> (r: String)
        ensures
            r@ == error_message(*self),
    {
        match self {
            Error::StorageNotFound(p) => with_payload("Storage pool not found: ", p),
            Error::StorageFull(p) => with_payload("Storage pool full: ", p),
            Error::StorageUnavailable(p) => with_payload("Storage pool unavailable: ", p),
            Error::NoAvailablePool => literal("No available storage pool"),
            Error::ObjectNotFound(k) => with_payload("Object not found: ", k),
            Error::ObjectCorrupted(k) => with_payload("Object corrupted: ", k),
            Error::BucketNotFound(b) => with_payload("Bucket not found: ", b),
            Error::BucketAlreadyExists(b) => with_payload("Bucket already exists: ", b),
            Error::BucketNotEmpty(b) => with_payload("Bucket not empty: ", b),
            Error::DatabaseError(e) => with_payload("Database error: ", e),
            Error::DatabaseMigrationError(e) => with_payload("Migration error: ", e),
            Error::AuthenticationFailed(e) => with_payload("Authentication failed: ", e),
            Error::SignatureMismatch => literal("Signature mismatch"),
            Error::AccessDenied => literal("Access denied"),
            Error::InvalidAccessKey => literal("Invalid access key"),
            Error::InvalidRequest(e) => with_payload("Invalid request: ", e),
            Error::InvalidHeaderValue(e) => with_payload("Invalid header value: ", e),
            Error::MissingHeader(h) => with_payload("Missing header: ", h),
            Error::ContentLengthMismatch => literal("Content length mismatch"),
            Error::InvalidPartOrder => literal("Invalid part order"),
            Error::InvalidPartSize => literal("Invalid part size"),
            Error::UploadNotFound(id) => with_payload("Upload not found: ", id),
            Error::PartNotFound(id) => with_payload("Part not found: ", id),
            Error::ConfigurationError(e) => with_payload("Configuration error: ", e),
            Error::IoError(e) => with_payload("I/O error: ", e),
            Error::SerializationError(e) => with_payload("Serialization error: ", e),
            Error::InternalError(e) => with_payload("Internal error: ", e),
            Error::DecryptionError(e) => with_payload("Decryption error: ", e),
            Error::InvalidRange => literal("Invalid range"),
            Error::SlowDown => literal("Slow down"),
            Error::PreSignedUrlExpired => literal("Pre-signed URL expired"),
        }
    }

    /// The HTTP status the error is answered with.
    pub fn status(&self) -> (r: u16)
        ensures
            r == error_status(*self),
    {
        match self {
            Error::StorageNotFound(_) | Error::ObjectNotFound(_) | Error::BucketNotFound(_) => 404,
            Error::BucketAlreadyExists(_) | Error::BucketNotEmpty(_) => 409,
            Error::StorageFull(_) | Error::NoAvailablePool => 503,
            Error::AuthenticationFailed(_) => 401,
            Error::SignatureMismatch | Error::InvalidAccessKey | Error::AccessDenied => 403,
            Error::InvalidRequest(_) | Error::InvalidHeaderValue(_) | Error::MissingHeader(_)
            | Error::ContentLengthMismatch | Error::InvalidPartOrder | Error::InvalidPartSize => 400,
            Error::UploadNotFound(_) => 404,
            _ => 500,
        }
    }

    /// The error code the error is answered with.
    pub fn code(&self) -> (r: &'static str)
        ensures
            r@ == error_code(*self),
    {
        match self {
            Error::StorageNotFound(_) | Error::ObjectNotFound(_) | Error::BucketNotFound(_) => "NoSuchKey",
            Error::BucketAlreadyExists(_) => "BucketAlreadyExists",
            Error::BucketNotEmpty(_) => "BucketNotEmpty",
            Error::StorageFull(_) | Error::NoAvailablePool => "StorageFull",
            Error::AuthenticationFailed(_) => "InvalidAccessKeyId",
            Error::SignatureMismatch | Error::InvalidAccessKey => "SignatureDoesNotMatch",
            Error::AccessDenied => "AccessDenied",
            Error::InvalidRequest(_) | Error::InvalidHeaderValue(_) | Error::MissingHeader(_) => "InvalidRequest",
            Error::ContentLengthMismatch => "IncompleteBody",
            Error::InvalidPartOrder => "InvalidPartOrder",
            Error::InvalidPartSize => "InvalidPart",
            Error::UploadNotFound(_) => "NoSuchUpload",
            _ => "InternalError",
        }
    }

    /// The message the error is answered with; internal errors get a generic
    /// message that does not reveal their details.
    pub fn response_message(&self) -> (r: String)
        ensures
            r@ == error_response_message(*self),
            is_internal(*self) ==> r@ == "An internal error occurred"@,
    {
        if self.status() == 500 {
            literal("An internal error occurred")
        } else {
            self.message()
        }
    }
}

} // verus!
