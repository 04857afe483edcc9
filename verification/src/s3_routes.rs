//! Which S3 operation a request asks for, by its method, path and query.
use vstd::prelude::*;
use crate::outside::{percent_decode, percent_decoding};
use crate::sigv4::nonempty_pieces;
use crate::text::{
    chars_of, contains_sub, join_pieces, join_with, split_char, split_on, split_once,
    split_once_char, str_contains, str_eq, string_of,
};

verus! {

/// The value of a percent-decoded query value, empty when it does not decode.
pub open spec fn decoded_or_empty(v: Seq<char>) -> Seq<char> {
    match percent_decoding(v) {
        Some(d) => d,
        None => Seq::<char>::empty(),
    }
}

/// The value of parameter `key` among `&`-separated pieces: the first piece
/// named `key` decides; a piece without `=` has no value.
pub open spec fn query_param_in(pieces: Seq<Seq<char>>, key: Seq<char>) -> Option<Seq<char>>
    decreases pieces.len(),
{
    if pieces.len() == 0 {
        None
    } else if split_once_char(pieces[0], '=').0 == key {
        match split_once_char(pieces[0], '=').1 {
            Some(v) => Some(decoded_or_empty(v)),
            None => None,
        }
    } else {
        query_param_in(pieces.drop_first(), key)
    }
}

/// The value of parameter `key` in a query string.
pub open spec fn query_param(query: Seq<char>, key: Seq<char>) -> Option<Seq<char>> {
    query_param_in(split_char(query, '&'), key)
}

/// The percent-decoded value of parameter `key` in a query string.
pub fn get_query_param(query: &str, key: &str) -> (r: Option<String>)
    ensures
        match query_param(query@, key@) {
            Some(v) => r matches Some(s) && s@ == v,
            None => r is None,
        },
{
    let qv = chars_of(query);
    let pieces = split_on(qv.as_slice(), '&');
    let ghost all = split_char(query@, '&');
    let kv = chars_of(key);
    let n = pieces.len();
    assert(all.skip(0) =~= all);
    for i in 0..n
        invariant
            n == pieces@.len(),
            n == all.len(),
            all == split_char(query@, '&'),
            kv@ == key@,
            forall|k: int| 0 <= k < n ==> #[trigger] pieces@[k]@ == all[k],
            query_param_in(all, key@) == query_param_in(all.skip(i as int), key@),
    {
        assert(all.skip(i as int)[0] == all[i as int]);
        assert(all.skip(i as int).drop_first() =~= all.skip(i + 1));
        let (name, value) = split_once(pieces[i].as_slice(), '=');
        if crate::text::chars_eq(name.as_slice(), kv.as_slice()) {
            return match value {
                Some(v) => {
                    let vs = string_of(v.as_slice());
                    match percent_decode(vs.as_str()) {
                        Some(d) => Some(d),
                        None => Some(String::new()),
                    }
                },
                None => None,
            };
        }
    }
    None
}

/// Whether a query string names parameter `key` (with or without a value).
pub open spec fn query_has(query: Seq<char>, key: Seq<char>) -> bool {
    exists|i: int| 0 <= i < split_char(query, '&').len()
        && #[trigger] split_once_char(split_char(query, '&')[i], '=').0 == key
}

/// Whether a query string names parameter `key`.
pub fn has_query_param(query: &str, key: &str) -> (r: bool)
    ensures
        r == query_has(query@, key@),
{
    let qv = chars_of(query);
    let pieces = split_on(qv.as_slice(), '&');
    let ghost all = split_char(query@, '&');
    let kv = chars_of(key);
    let n = pieces.len();
    for i in 0..n
        invariant
            n == pieces@.len(),
            n == all.len(),
            all == split_char(query@, '&'),
            kv@ == key@,
            forall|k: int| 0 <= k < n ==> #[trigger] pieces@[k]@ == all[k],
            forall|k: int| 0 <= k < i ==> #[trigger] split_once_char(all[k], '=').0 != key@,
    {
        let (name, _value) = split_once(pieces[i].as_slice(), '=');
        if crate::text::chars_eq(name.as_slice(), kv.as_slice()) {
            assert(split_once_char(all[i as int], '=').0 == key@);
            return true;
        }
    }
    false
}

/// The part number of an UploadPart request: a decimal number from 1 to
/// 10000, the range S3 gives part numbers.
pub open spec fn part_number_spec(text: Seq<char>) -> Option<u32> {
    match crate::text::parse_u64_spec(text) {
        Some(n) => if 1 <= n <= 10000 { Some(n as u32) } else { None },
        None => None,
    }
}

/// Reads the part number of an UploadPart request.
///
/// Fails with `InvalidRequest` when it is not a number from 1 to 10000.
pub fn parse_part_number(text: &str) -> (r: Result<u32, crate::error::Error>)
    ensures
        match part_number_spec(text@) {
            Some(n) => r == Ok::<u32, crate::error::Error>(n),
            None => r matches Err(crate::error::Error::InvalidRequest(m)) && m@ == "Invalid part number"@,
        },
{
    let v = chars_of(text);
    match crate::text::parse_u64(v.as_slice()) {
        Some(n) => {
            if 1 <= n && n <= 10000 {
                return Ok(n as u32);
            }
        },
        None => {},
    }
    Err(crate::error::Error::InvalidRequest(crate::text::string_of(chars_of("Invalid part number").as_slice())))
}

/// An S3 operation and the bucket, key and version it names (as views).
pub ghost enum S3RouteView {
    ListBuckets,
    PutBucketAcl(Seq<char>),
    CreateBucket(Seq<char>),
    DeleteBucket(Seq<char>),
    HeadBucket(Seq<char>),
    GetBucketLocation(Seq<char>),
    GetBucketAcl(Seq<char>),
    ListObjectVersions(Seq<char>),
    ListObjects(Seq<char>),
    ListMultipartUploads(Seq<char>),
    BatchDelete(Seq<char>),
    MethodNotAllowed,
    PutObject(Seq<char>, Seq<char>),
    GetObjectVersion(Seq<char>, Seq<char>, Seq<char>),
    GetObject(Seq<char>, Seq<char>),
    HeadObject(Seq<char>, Seq<char>),
    DeleteObjectVersion(Seq<char>, Seq<char>, Seq<char>),
    DeleteObject(Seq<char>, Seq<char>),
    CreateMultipartUpload(Seq<char>, Seq<char>),
    UploadPart(Seq<char>, Seq<char>, Seq<char>, Seq<char>),
    CompleteMultipartUpload(Seq<char>, Seq<char>, Seq<char>),
    AbortMultipartUpload(Seq<char>, Seq<char>, Seq<char>),
    ListParts(Seq<char>, Seq<char>, Seq<char>),
    NotFound,
}

/// An S3 operation and the bucket, key and version it names.
pub enum S3Route {
    ListBuckets,
    PutBucketAcl(String),
    CreateBucket(String),
    DeleteBucket(String),
    HeadBucket(String),
    GetBucketLocation(String),
    GetBucketAcl(String),
    ListObjectVersions(String),
    ListObjects(String),
    /// The multipart uploads in progress for a bucket.
    ListMultipartUploads(String),
    BatchDelete(String),
    /// A POST on a bucket that is not a batch delete.
    MethodNotAllowed,
    PutObject(String, String),
    GetObjectVersion(String, String, String),
    GetObject(String, String),
    HeadObject(String, String),
    DeleteObjectVersion(String, String, String),
    DeleteObject(String, String),
    /// Starts a multipart upload of a key.
    CreateMultipartUpload(String, String),
    /// Uploads a part: bucket, key, upload id and the part number as written.
    UploadPart(String, String, String, String),
    /// Completes an upload: bucket, key and upload id.
    CompleteMultipartUpload(String, String, String),
    /// Aborts an upload: bucket, key and upload id.
    AbortMultipartUpload(String, String, String),
    /// Lists the parts of an upload: bucket, key and upload id.
    ListParts(String, String, String),
    /// No operation answers this method and path.
    NotFound,
}

impl View for S3Route {
    type V = S3RouteView;

    open spec fn view(&self) -> S3RouteView {
        match self {
            S3Route::ListBuckets => S3RouteView::ListBuckets,
            S3Route::PutBucketAcl(b) => S3RouteView::PutBucketAcl(b@),
            S3Route::CreateBucket(b) => S3RouteView::CreateBucket(b@),
            S3Route::DeleteBucket(b) => S3RouteView::DeleteBucket(b@),
            S3Route::HeadBucket(b) => S3RouteView::HeadBucket(b@),
            S3Route::GetBucketLocation(b) => S3RouteView::GetBucketLocation(b@),
            S3Route::GetBucketAcl(b) => S3RouteView::GetBucketAcl(b@),
            S3Route::ListObjectVersions(b) => S3RouteView::ListObjectVersions(b@),
            S3Route::ListObjects(b) => S3RouteView::ListObjects(b@),
            S3Route::ListMultipartUploads(b) => S3RouteView::ListMultipartUploads(b@),
            S3Route::BatchDelete(b) => S3RouteView::BatchDelete(b@),
            S3Route::MethodNotAllowed => S3RouteView::MethodNotAllowed,
            S3Route::PutObject(b, k) => S3RouteView::PutObject(b@, k@),
            S3Route::GetObjectVersion(b, k, v) => S3RouteView::GetObjectVersion(b@, k@, v@),
            S3Route::GetObject(b, k) => S3RouteView::GetObject(b@, k@),
            S3Route::HeadObject(b, k) => S3RouteView::HeadObject(b@, k@),
            S3Route::DeleteObjectVersion(b, k, v) => S3RouteView::DeleteObjectVersion(b@, k@, v@),
            S3Route::DeleteObject(b, k) => S3RouteView::DeleteObject(b@, k@),
            S3Route::CreateMultipartUpload(b, k) => S3RouteView::CreateMultipartUpload(b@, k@),
            S3Route::UploadPart(b, k, u, p) => S3RouteView::UploadPart(b@, k@, u@, p@),
            S3Route::CompleteMultipartUpload(b, k, u) => S3RouteView::CompleteMultipartUpload(b@, k@, u@),
            S3Route::AbortMultipartUpload(b, k, u) => S3RouteView::AbortMultipartUpload(b@, k@, u@),
            S3Route::ListParts(b, k, u) => S3RouteView::ListParts(b@, k@, u@),
            S3Route::NotFound => S3RouteView::NotFound,
        }
    }
}

/// The non-empty `/`-separated segments of a path.
pub open spec fn path_segments(path: Seq<char>) -> Seq<Seq<char>> {
    nonempty_pieces(split_char(path, '/'))
}

/// The operation a bucket-level request asks for.
pub open spec fn bucket_route(method: Seq<char>, b: Seq<char>, q: Seq<char>) -> S3RouteView {
    if method == "PUT"@ {
        if contains_sub(q, "acl"@) {
            S3RouteView::PutBucketAcl(b)
        } else {
            S3RouteView::CreateBucket(b)
        }
    } else if method == "DELETE"@ {
        S3RouteView::DeleteBucket(b)
    } else if method == "HEAD"@ {
        S3RouteView::HeadBucket(b)
    } else if method == "GET"@ {
        if contains_sub(q, "location"@) {
            S3RouteView::GetBucketLocation(b)
        } else if contains_sub(q, "acl"@) {
            S3RouteView::GetBucketAcl(b)
        } else if query_has(q, "uploads"@) {
            S3RouteView::ListMultipartUploads(b)
        } else if contains_sub(q, "versions"@) && !contains_sub(q, "versionId"@) {
            S3RouteView::ListObjectVersions(b)
        } else {
            S3RouteView::ListObjects(b)
        }
    } else if method == "POST"@ {
        if contains_sub(q, "delete"@) {
            S3RouteView::BatchDelete(b)
        } else {
            S3RouteView::MethodNotAllowed
        }
    } else {
        S3RouteView::NotFound
    }
}

/// The operation an object-level request asks for.  A request naming an
/// `uploadId` belongs to that multipart upload: a PUT with a `partNumber`
/// uploads a part, a POST completes it, a DELETE aborts it and a GET lists
/// its parts; a POST naming `uploads` starts one.
pub open spec fn object_route(method: Seq<char>, b: Seq<char>, k: Seq<char>, q: Seq<char>) -> S3RouteView {
    let upload = query_param(q, "uploadId"@);
    if method == "PUT"@ {
        match (upload, query_param(q, "partNumber"@)) {
            (Some(u), Some(p)) => S3RouteView::UploadPart(b, k, u, p),
            _ => S3RouteView::PutObject(b, k),
        }
    } else if method == "GET"@ {
        match upload {
            Some(u) => S3RouteView::ListParts(b, k, u),
            None => match query_param(q, "versionId"@) {
                Some(v) => S3RouteView::GetObjectVersion(b, k, v),
                None => S3RouteView::GetObject(b, k),
            },
        }
    } else if method == "HEAD"@ {
        S3RouteView::HeadObject(b, k)
    } else if method == "DELETE"@ {
        match upload {
            Some(u) => S3RouteView::AbortMultipartUpload(b, k, u),
            None => match query_param(q, "versionId"@) {
                Some(v) => S3RouteView::DeleteObjectVersion(b, k, v),
                None => S3RouteView::DeleteObject(b, k),
            },
        }
    } else if method == "POST"@ {
        if query_has(q, "uploads"@) {
            S3RouteView::CreateMultipartUpload(b, k)
        } else {
            match upload {
                Some(u) => S3RouteView::CompleteMultipartUpload(b, k, u),
                None => S3RouteView::NotFound,
            }
        }
    } else {
        S3RouteView::NotFound
    }
}

/// The operation a request asks for: a GET on `/` lists the buckets; one
/// path segment names a bucket; more name a bucket and the key made of the
/// remaining segments joined with `/`.
pub open spec fn route_spec(method: Seq<char>, path: Seq<char>, query: Seq<char>) -> S3RouteView {
    let parts = path_segments(path);
    if parts.len() == 0 {
        if method == "GET"@ {
            S3RouteView::ListBuckets
        } else {
            S3RouteView::NotFound
        }
    } else if parts.len() == 1 {
        bucket_route(method, parts[0], query)
    } else {
        object_route(method, parts[0], join_with(parts.skip(1), "/"@), query)
    }
}

/// The non-empty segments of a path.
fn segments(path: &[char]) -> (r: Vec<Vec<char>>)
    ensures
        r@.map_values(|p: Vec<char>| p@) == path_segments(path@),
{
    let pieces = split_on(path, '/');
    let ghost all = split_char(path@, '/');
    let n = pieces.len();
    let mut out: Vec<Vec<char>> = Vec::new();
    for i in 0..n
        invariant
            n == pieces@.len(),
            n == all.len(),
            all == split_char(path@, '/'),
            forall|k: int| 0 <= k < n ==> #[trigger] pieces@[k]@ == all[k],
            out@.map_values(|p: Vec<char>| p@) == nonempty_pieces(all.take(i as int)),
    {
        assert(all.take(i + 1).drop_last() =~= all.take(i as int));
        assert(all.take(i + 1).last() == all[i as int]);
        if pieces[i].len() > 0 {
            out.push(slice_all(pieces[i].as_slice()));
            assert(out@.map_values(|p: Vec<char>| p@) =~= nonempty_pieces(all.take(i + 1)));
        }
    }
    assert(all.take(n as int) =~= all);
    out
}

fn slice_all(v: &[char]) -> (r: Vec<char>)
    ensures
        r@ == v@,
{
    let r = crate::text::slice_chars(v, 0, v.len());
    assert(r@ =~= v@);
    r
}

/// The S3 request handler: it answers each request by the operation
/// `S3Route::route` finds for it.
pub struct S3Handler;

impl S3Route {
    /// The operation a request with this method, path and query asks for.
    pub fn route(method: &str, path: &str, query: &str) -> (r: S3Route)
        ensures
            r@ == route_spec(method@, path@, query@),
    {
        let pv = chars_of(path);
        let parts = segments(pv.as_slice());
        let ghost ps = path_segments(path@);
        assert(parts@.len() == ps.len());
        if parts.len() == 0 {
            if str_eq(method, "GET") {
                return S3Route::ListBuckets;
            }
            return S3Route::NotFound;
        }
        assert(parts@[0]@ == ps[0]);
        let b = string_of(parts[0].as_slice());
        if parts.len() == 1 {
            if str_eq(method, "PUT") {
                if str_contains(query, "acl") {
                    S3Route::PutBucketAcl(b)
                } else {
                    S3Route::CreateBucket(b)
                }
            } else if str_eq(method, "DELETE") {
                S3Route::DeleteBucket(b)
            } else if str_eq(method, "HEAD") {
                S3Route::HeadBucket(b)
            } else if str_eq(method, "GET") {
                if str_contains(query, "location") {
                    S3Route::GetBucketLocation(b)
                } else if str_contains(query, "acl") {
                    S3Route::GetBucketAcl(b)
                } else if has_query_param(query, "uploads") {
                    S3Route::ListMultipartUploads(b)
                } else if str_contains(query, "versions") && !str_contains(query, "versionId") {
                    S3Route::ListObjectVersions(b)
                } else {
                    S3Route::ListObjects(b)
                }
            } else if str_eq(method, "POST") {
                if str_contains(query, "delete") {
                    S3Route::BatchDelete(b)
                } else {
                    S3Route::MethodNotAllowed
                }
            } else {
                S3Route::NotFound
            }
        } else {
            let mut rest: Vec<Vec<char>> = Vec::new();
            let n = parts.len();
            for i in 1..n
                invariant
                    n == parts@.len(),
                    rest@.len() == i - 1,
                    forall|k: int| 0 <= k < rest@.len() ==> #[trigger] rest@[k]@ == parts@[k + 1]@,
            {
                rest.push(slice_all(parts[i].as_slice()));
            }
            let kc = join_pieces(rest.as_slice(), chars_of("/").as_slice());
            assert(rest@.map_values(|p: Vec<char>| p@) =~= ps.skip(1));
            let k = string_of(kc.as_slice());
            let upload = get_query_param(query, "uploadId");
            if str_eq(method, "PUT") {
                match (upload, get_query_param(query, "partNumber")) {
                    (Some(u), Some(p)) => S3Route::UploadPart(b, k, u, p),
                    _ => S3Route::PutObject(b, k),
                }
            } else if str_eq(method, "GET") {
                match upload {
                    Some(u) => S3Route::ListParts(b, k, u),
                    None => match get_query_param(query, "versionId") {
                        Some(v) => S3Route::GetObjectVersion(b, k, v),
                        None => S3Route::GetObject(b, k),
                    },
                }
            } else if str_eq(method, "HEAD") {
                S3Route::HeadObject(b, k)
            } else if str_eq(method, "DELETE") {
                match upload {
                    Some(u) => S3Route::AbortMultipartUpload(b, k, u),
                    None => match get_query_param(query, "versionId") {
                        Some(v) => S3Route::DeleteObjectVersion(b, k, v),
                        None => S3Route::DeleteObject(b, k),
                    },
                }
            } else if str_eq(method, "POST") {
                if has_query_param(query, "uploads") {
                    S3Route::CreateMultipartUpload(b, k)
                } else {
                    match upload {
                        Some(u) => S3Route::CompleteMultipartUpload(b, k, u),
                        None => S3Route::NotFound,
                    }
                }
            } else {
                S3Route::NotFound
            }
        }
    }
}

// ---------------------------------------------------------------------------
// Object keys
// ---------------------------------------------------------------------------

/// Whether `s` is a non-empty path segment: no `/` in it.
pub open spec fn is_segment(s: Seq<char>) -> bool {
    s.len() > 0 && forall|i: int| 0 <= i < s.len() ==> s[i] != '/'
}

proof fn lemma_nonempty_pieces_concat(a: Seq<Seq<char>>, b: Seq<Seq<char>>)
    ensures
        nonempty_pieces(a + b) == nonempty_pieces(a) + nonempty_pieces(b),
    decreases b.len(),
{
    if b.len() == 0 {
        assert(a + b =~= a);
        assert(nonempty_pieces(a) + nonempty_pieces(b) =~= nonempty_pieces(a));
    } else {
        lemma_nonempty_pieces_concat(a, b.drop_last());
        assert((a + b).drop_last() =~= a + b.drop_last());
        assert((a + b).last() == b.last());
        if b.last().len() == 0 {
        } else {
            assert((nonempty_pieces(a) + nonempty_pieces(b.drop_last())).push(b.last()) =~= nonempty_pieces(a)
                + nonempty_pieces(b.drop_last()).push(b.last()));
        }
    }
}

proof fn lemma_nonempty_pieces_keep(segs: Seq<Seq<char>>)
    requires
        forall|i: int| 0 <= i < segs.len() ==> (#[trigger] segs[i]).len() > 0,
    ensures
        nonempty_pieces(segs) == segs,
    decreases segs.len(),
{
    if segs.len() > 0 {
        lemma_nonempty_pieces_keep(segs.drop_last());
        assert(segs.drop_last().push(segs.last()) =~= segs);
    }
}

/// Splitting a key made of segments at `/` gives back the segments.
proof fn lemma_split_key(segs: Seq<Seq<char>>)
    requires
        segs.len() >= 1,
        forall|i: int| 0 <= i < segs.len() ==> is_segment(#[trigger] segs[i]),
    ensures
        split_char(join_with(segs, "/"@), '/') == segs,
    decreases segs.len(),
{
    if segs.len() == 1 {
        crate::text::lemma_split_char_none(segs[0], '/');
        assert(seq![segs[0]] =~= segs);
    } else {
        let init = segs.drop_last();
        lemma_split_key(init);
        reveal_strlit("/");
        assert("/"@ =~= seq!['/']);
        crate::text::lemma_split_char_concat(join_with(init, "/"@), segs.last(), '/');
        crate::text::lemma_split_char_none(segs.last(), '/');
        assert(init + seq![segs.last()] =~= segs);
    }
}

/// The key of an object request is the whole rest of its path: routing
/// `/b/k` for a bucket `b` and a key `k` made of one or more non-empty
/// `/`-separated segments names bucket `b` and key `k`, whatever the number
/// of segments; a plain GET of it is a GetObject of exactly `(b, k)`.
pub proof fn law_object_key_is_the_rest_of_the_path(
    method: Seq<char>,
    bucket: Seq<char>,
    segs: Seq<Seq<char>>,
    query: Seq<char>,
)
    requires
        is_segment(bucket),
        segs.len() >= 1,
        forall|i: int| 0 <= i < segs.len() ==> is_segment(#[trigger] segs[i]),
    ensures
        route_spec(method, "/"@ + bucket + "/"@ + join_with(segs, "/"@), query) == object_route(
            method,
            bucket,
            join_with(segs, "/"@),
            query,
        ),
        route_spec("GET"@, "/"@ + bucket + "/"@ + join_with(segs, "/"@), ""@) == S3RouteView::GetObject(
            bucket,
            join_with(segs, "/"@),
        ),
{
    reveal_strlit("/");
    let k = join_with(segs, "/"@);
    let path = "/"@ + bucket + "/"@ + k;
    lemma_split_key(segs);
    crate::text::lemma_split_char_none(bucket, '/');
    crate::text::lemma_split_char_concat(bucket, k, '/');
    assert(path =~= Seq::<char>::empty() + seq!['/'] + (bucket + seq!['/'] + k));
    crate::text::lemma_split_char_concat(Seq::<char>::empty(), bucket + seq!['/'] + k, '/');
    assert(split_char(Seq::<char>::empty(), '/') =~= seq![Seq::<char>::empty()]);
    let pieces = seq![Seq::<char>::empty()] + (seq![bucket] + segs);
    assert(split_char(path, '/') == pieces);
    lemma_nonempty_pieces_concat(seq![Seq::<char>::empty()], seq![bucket] + segs);
    assert(nonempty_pieces(seq![Seq::<char>::empty()]) =~= Seq::<Seq<char>>::empty()) by {
        assert(seq![Seq::<char>::empty()].drop_last() =~= Seq::<Seq<char>>::empty());
        assert(seq![Seq::<char>::empty()].last().len() == 0);
        assert(nonempty_pieces(Seq::<Seq<char>>::empty()) =~= Seq::<Seq<char>>::empty());
    }
    assert forall|i: int| 0 <= i < (seq![bucket] + segs).len() implies (#[trigger] (seq![bucket] + segs)[i]).len() > 0 by {
        if i > 0 {
            assert((seq![bucket] + segs)[i] == segs[i - 1]);
        }
    }
    lemma_nonempty_pieces_keep(seq![bucket] + segs);
    let parts = path_segments(path);
    assert(parts =~= seq![bucket] + segs);
    assert(parts.skip(1) =~= segs);
    // A plain GET names neither an upload nor a version.
    reveal_strlit("uploadId");
    reveal_strlit("versionId");
    let e = Seq::<char>::empty();
    assert(""@ =~= e) by { reveal_strlit(""); }
    assert(split_char(e, '&') =~= seq![e]);
    crate::text::lemma_find_char(e, '=', 0);
    assert(split_once_char(e, '=').0 =~= e);
    assert(seq![e].drop_first() =~= Seq::<Seq<char>>::empty());
    assert(query_param_in(Seq::<Seq<char>>::empty(), "uploadId"@) is None);
    assert(query_param_in(Seq::<Seq<char>>::empty(), "versionId"@) is None);
    assert(e != "uploadId"@);
    assert(e != "versionId"@);
    assert(query_param_in(seq![e], "uploadId"@) == query_param_in(seq![e].drop_first(), "uploadId"@));
    assert(query_param_in(seq![e], "versionId"@) == query_param_in(seq![e].drop_first(), "versionId"@));
    assert(query_param(e, "uploadId"@) is None);
    reveal_strlit("GET");
    reveal_strlit("PUT");
    assert("GET"@ != "PUT"@) by {
        assert("GET"@[0] != "PUT"@[0]);
    }
    assert(query_param(e, "versionId"@) is None);
}

} // verus!
