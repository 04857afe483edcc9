//! The errors of the S3 front end, with the HTTP status, the S3 error code
//! and the message each is answered with.
use vstd::prelude::*;

verus! {

/// An error answered to an S3 client.
pub enum S3Error {
    NoSuchBucket(String),
    NoSuchKey(String),
    BucketAlreadyExists(String),
    InvalidBucketName(String),
    AccessDenied,
    SignatureDoesNotMatch,
    InvalidArgument(String),
    InternalError,
}

/// The status, code and message an error is answered with.
pub open spec fn s3_error_parts(e: S3Error) -> (u16, Seq<char>, Seq<char>) {
    match e {
        S3Error::NoSuchBucket(b) => (404, "NoSuchBucket"@, b@),
        S3Error::NoSuchKey(k) => (404, "NoSuchKey"@, k@),
        S3Error::BucketAlreadyExists(b) => (409, "BucketAlreadyExists"@, b@),
        S3Error::InvalidBucketName(b) => (400, "InvalidBucketName"@, b@),
        S3Error::AccessDenied => (403, "AccessDenied"@, "Access Denied"@),
        S3Error::SignatureDoesNotMatch => (403, "SignatureDoesNotMatch"@, "Signature mismatch"@),
        S3Error::InvalidArgument(m) => (400, "InvalidArgument"@, m@),
        S3Error::InternalError => (500, "InternalError"@, "Internal error"@),
    }
}

impl S3Error {
    /// The HTTP status, the S3 error code and the message of the error.
    pub fn parts(self) -> (r: (u16, &'static str, String))
        ensures
            r.0 == s3_error_parts(self).0,
            r.1@ == s3_error_parts(self).1,
            r.2@ == s3_error_parts(self).2,
    {
        match self {
            S3Error::NoSuchBucket(b) => (404, "NoSuchBucket", b),
            S3Error::NoSuchKey(k) => (404, "NoSuchKey", k),
            S3Error::BucketAlreadyExists(b) => (409, "BucketAlreadyExists", b),
            S3Error::InvalidBucketName(b) => (400, "InvalidBucketName", b),
            S3Error::AccessDenied => (403, "AccessDenied", "Access Denied".to_string()),
            S3Error::SignatureDoesNotMatch => (403, "SignatureDoesNotMatch", "Signature mismatch".to_string()),
            S3Error::InvalidArgument(m) => (400, "InvalidArgument", m),
            S3Error::InternalError => (500, "InternalError", "Internal error".to_string()),
        }
    }
}

} // verus!
