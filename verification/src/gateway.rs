//! The first decisions taken on a request that reaches the S3 front end:
//! whether a browser is sent to the web interface, which bucket the request
//! is counted against, whether it is a pre-signed download, and who made it.
use vstd::prelude::*;
use crate::presign::{trim_leading, trim_leading_exec};
use crate::text::{chars_of, contains_sub, push_str, slice_chars, split_char, split_on, str_contains, str_eq, string_of};

verus! {

/// How a request is let in.
#[derive(Debug, Clone, Copy, PartialEq, Eq, Structural)]
pub enum RequestGate {
    /// A browser asking for the root: sent to the web interface.
    RedirectToWeb,
    /// A download authorised by a pre-signed URL.
    Presigned,
    /// Any other request: it must carry a valid signature.
    Signed,
}

/// How a request with this method, path and query is let in.
pub open spec fn gate_of(method: Seq<char>, path: Seq<char>, query: Option<Seq<char>>, has_authorization: bool) -> RequestGate {
    if path == "/"@ && !has_authorization {
        RequestGate::RedirectToWeb
    } else if method == "GET"@ && (query matches Some(q) && contains_sub(q, "X-Amz-Signature"@)) {
        RequestGate::Presigned
    } else {
        RequestGate::Signed
    }
}

/// Decides how a request is let in.
pub fn request_gate(method: &str, path: &str, query: Option<&str>, has_authorization: bool) -> (r: RequestGate)
    ensures
        r == gate_of(method@, path@, match query { Some(q) => Some(q@), None => None }, has_authorization),
{
    if str_eq(path, "/") && !has_authorization {
        return RequestGate::RedirectToWeb;
    }
    let presigned = match query {
        Some(q) => str_contains(q, "X-Amz-Signature"),
        None => false,
    };
    if str_eq(method, "GET") && presigned {
        RequestGate::Presigned
    } else {
        RequestGate::Signed
    }
}

/// The pieces of a path, without its leading slashes, between slashes.
pub open spec fn path_pieces(path: Seq<char>) -> Seq<Seq<char>> {
    split_char(trim_leading(path, '/'), '/')
}

/// The bucket a request is counted against, and the key it names if any:
/// the first and second pieces of its path.
pub fn rate_limit_target(path: &str) -> (r: (String, Option<String>))
    ensures
        r.0@ == path_pieces(path@)[0],
        path_pieces(path@).len() > 1 ==> (r.1 matches Some(k) && k@ == path_pieces(path@)[1]),
        path_pieces(path@).len() <= 1 ==> r.1 is None,
{
    let v = chars_of(path);
    let start = trim_leading_exec(v.as_slice(), '/');
    let rest = slice_chars(v.as_slice(), start, v.len());
    assert(rest@ =~= v@.skip(start as int));
    let pieces = split_on(rest.as_slice(), '/');
    proof {
        crate::text::lemma_split_char_nonempty(rest@, '/');
    }
    let bucket = string_of(pieces[0].as_slice());
    let key = if pieces.len() > 1 {
        Some(string_of(pieces[1].as_slice()))
    } else {
        None
    };
    (bucket, key)
}

/// The address a request came from: the forwarded-for header, or "unknown".
pub fn source_ip(forwarded_for: Option<&str>) -> (r: String)
    ensures
        r@ == match forwarded_for {
            Some(f) => f@,
            None => "unknown"@,
        },
{
    match forwarded_for {
        Some(f) => f.to_string(),
        None => "unknown".to_string(),
    }
}

/// The path and query of a request as it was signed.
pub fn request_uri(path: &str, query: Option<&str>) -> (r: String)
    ensures
        r@ == match query {
            Some(q) => path@ + "?"@ + q@,
            None => path@,
        },
{
    let mut s = String::new();
    push_str(&mut s, path);
    if let Some(q) = query {
        push_str(&mut s, "?");
        push_str(&mut s, q);
    }
    s
}

} // verus!
