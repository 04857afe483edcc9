//! Pre-signed URLs: time-limited GET access to one object, signed with
//! HMAC-SHA256 under the server's master key.
use vstd::prelude::*;
use vstd::utf8::encode_utf8;
use crate::outside::{
    amz_date_timestamp, hmac_sha256, hmac_sha256_tag, now_amz_date, now_timestamp, pair_views,
    parse_amz_date, parse_url, sha256, sha256_digest, url_path_and_pairs,
};
use crate::sigv4::{find_header, header_lookup, pair_text, utf8_bytes, QueryPair};
use crate::text::{
    chars_eq, chars_of, decimal, hex_encode, hex_lower, join_pieces, join_with, parse_u64,
    parse_u64_spec, push_chars, push_decimal, push_str, slice_chars, split_once,
    split_once_char, str_eq, string_of,
};

verus! {

// ---------------------------------------------------------------------------
// Signing
// ---------------------------------------------------------------------------

/// The path a pre-signed URL names: `/bucket/key`.
pub open spec fn presign_path(bucket: Seq<char>, key: Seq<char>) -> Seq<char> {
    "/"@ + bucket + "/"@ + key
}

/// The query string of a pre-signed URL, before its signature.
pub open spec fn presign_query(amz_date: Seq<char>, expires: u64) -> Seq<char> {
    "X-Amz-Algorithm=AWS4-HMAC-SHA256&X-Amz-Credential="@ + "objstor-presign"@ + "%2F"@ + "us-east-1"@
        + "&X-Amz-Date="@ + amz_date + "&X-Amz-Expires="@ + decimal(expires as nat)
        + "&X-Amz-SignedHeaders=host"@
}

/// The query string as a server decodes it, which is what is signed: the
/// same parameters with the credential's `/` unescaped.
pub open spec fn presign_signed_query(amz_date: Seq<char>, expires: u64) -> Seq<char> {
    "X-Amz-Algorithm"@ + "="@ + "AWS4-HMAC-SHA256"@ + "&"@ + "X-Amz-Credential"@ + "="@ + presign_credential() + "&"@
        + "X-Amz-Date"@ + "="@ + amz_date + "&"@ + "X-Amz-Expires"@ + "="@ + decimal(expires as nat) + "&"@
        + "X-Amz-SignedHeaders"@ + "="@ + "host"@
}

/// The credential of a pre-signed URL, decoded.
pub open spec fn presign_credential() -> Seq<char> {
    "objstor-presign"@ + "/"@ + "us-east-1"@
}

/// The string signed for a path and query: the request line, then the hex
/// SHA-256 of the request line.
pub open spec fn presign_string_to_sign(path: Seq<char>, query: Seq<char>) -> Seq<char> {
    "GET\n"@ + path + "\n"@ + query + "\n"@ + hex_lower(sha256_digest(encode_utf8("GET\n"@ + path + "\n"@ + query)))
}

/// The signature of a path and query under a key.
pub open spec fn presign_signature(master_key: Seq<u8>, path: Seq<char>, query: Seq<char>) -> Seq<char> {
    hex_lower(hmac_sha256_tag(master_key, encode_utf8(presign_string_to_sign(path, query))))
}

/// The pre-signed URL for an object, signed at the given time.  The
/// signature covers the decoded parameters, so that validation, which
/// re-signs the parameters it decodes from the URL, accepts it.
pub open spec fn presigned_url(
    host: Seq<char>,
    bucket: Seq<char>,
    key: Seq<char>,
    expires: u64,
    amz_date: Seq<char>,
    master_key: Seq<u8>,
) -> Seq<char> {
    let path = presign_path(bucket, key);
    let query = presign_query(amz_date, expires);
    "http://"@ + host + path + "?"@ + query + "&X-Amz-Signature="@
        + presign_signature(master_key, path, presign_signed_query(amz_date, expires))
}

/// Signs `path` and `query` with the master key.
fn sign(master_key: &[u8], path: &[char], query: &[char]) -> (r: Vec<char>)
    ensures
        r@ == presign_signature(master_key@, path@, query@),
{
    let mut line = String::new();
    push_str(&mut line, "GET\n");
    push_chars(&mut line, path);
    push_str(&mut line, "\n");
    push_chars(&mut line, query);
    let digest = sha256(utf8_bytes(line.as_str()).as_slice());
    let hashed = hex_encode(digest.as_slice());
    let mut sts = String::new();
    push_str(&mut sts, "GET\n");
    push_chars(&mut sts, path);
    push_str(&mut sts, "\n");
    push_chars(&mut sts, query);
    push_str(&mut sts, "\n");
    push_chars(&mut sts, hashed.as_slice());
    let tag = hmac_sha256(master_key, utf8_bytes(sts.as_str()).as_slice());
    hex_encode(tag.as_slice())
}

/// The pre-signed URL for GET access to `bucket/key` from `host`, valid for
/// `expires_in_secs` seconds from `amz_date` (written `%Y%m%dT%H%M%SZ`).
pub fn presigned_url_at(
    host: &str,
    bucket: &str,
    key: &str,
    expires_in_secs: u64,
    amz_date: &str,
    master_key: &[u8],
) -> (r: String)
    ensures
        r@ == presigned_url(host@, bucket@, key@, expires_in_secs, amz_date@, master_key@),
{
    let mut path = String::new();
    push_str(&mut path, "/");
    push_str(&mut path, bucket);
    push_str(&mut path, "/");
    push_str(&mut path, key);
    let mut query = String::new();
    push_str(&mut query, "X-Amz-Algorithm=AWS4-HMAC-SHA256&X-Amz-Credential=");
    push_str(&mut query, "objstor-presign");
    push_str(&mut query, "%2F");
    push_str(&mut query, "us-east-1");
    push_str(&mut query, "&X-Amz-Date=");
    push_str(&mut query, amz_date);
    push_str(&mut query, "&X-Amz-Expires=");
    let mut digits: Vec<char> = Vec::new();
    push_decimal(&mut digits, expires_in_secs);
    push_chars(&mut query, digits.as_slice());
    push_str(&mut query, "&X-Amz-SignedHeaders=host");
    let mut signed = String::new();
    push_str(&mut signed, "X-Amz-Algorithm");
    push_str(&mut signed, "=");
    push_str(&mut signed, "AWS4-HMAC-SHA256");
    push_str(&mut signed, "&");
    push_str(&mut signed, "X-Amz-Credential");
    push_str(&mut signed, "=");
    push_str(&mut signed, "objstor-presign");
    push_str(&mut signed, "/");
    push_str(&mut signed, "us-east-1");
    push_str(&mut signed, "&");
    push_str(&mut signed, "X-Amz-Date");
    push_str(&mut signed, "=");
    push_str(&mut signed, amz_date);
    push_str(&mut signed, "&");
    push_str(&mut signed, "X-Amz-Expires");
    push_str(&mut signed, "=");
    push_chars(&mut signed, digits.as_slice());
    push_str(&mut signed, "&");
    push_str(&mut signed, "X-Amz-SignedHeaders");
    push_str(&mut signed, "=");
    push_str(&mut signed, "host");
    assert(signed@ =~= presign_signed_query(amz_date@, expires_in_secs));
    let pv = chars_of(path.as_str());
    let qv = chars_of(signed.as_str());
    let sig = sign(master_key, pv.as_slice(), qv.as_slice());
    let mut url = String::new();
    push_str(&mut url, "http://");
    push_str(&mut url, host);
    push_str(&mut url, path.as_str());
    push_str(&mut url, "?");
    push_str(&mut url, query.as_str());
    push_str(&mut url, "&X-Amz-Signature=");
    push_chars(&mut url, sig.as_slice());
    url
}

/// Generates a pre-signed URL for GET access to an object, dated now.
///
/// The method argument is not used: pre-signed URLs grant GET only.
pub fn generate_presigned_url(
    host: &str,
    bucket: &str,
    key: &str,
    expires_in_secs: u64,
    method: &str,
    master_key: &[u8],
) -> (r: String)
    ensures
        exists|d: Seq<char>| r@ == presigned_url(host@, bucket@, key@, expires_in_secs, d, master_key@),
{
    let amz_date = now_amz_date();
    presigned_url_at(host, bucket, key, expires_in_secs, amz_date.as_str(), master_key)
}

// ---------------------------------------------------------------------------
// Validation
// ---------------------------------------------------------------------------

/// `s` without its leading `c` characters.
pub open spec fn trim_leading(s: Seq<char>, c: char) -> Seq<char>
    decreases s.len(),
{
    if s.len() > 0 && s[0] == c {
        trim_leading(s.drop_first(), c)
    } else {
        s
    }
}

/// The pairs whose name is not `name`, in order.
pub open spec fn pairs_without(pairs: Seq<QueryPair>, name: Seq<char>) -> Seq<QueryPair>
    decreases pairs.len(),
{
    if pairs.len() == 0 {
        Seq::<QueryPair>::empty()
    } else if pairs.last().0 == name {
        pairs_without(pairs.drop_last(), name)
    } else {
        pairs_without(pairs.drop_last(), name).push(pairs.last())
    }
}

/// The value of the `X-Amz-Expires` parameter, read as a `u64`.
pub open spec fn expires_param(pairs: Seq<QueryPair>) -> Option<u64> {
    match header_lookup(pairs, "X-Amz-Expires"@) {
        Some(e) => parse_u64_spec(e),
        None => None,
    }
}

/// The value of the `X-Amz-Algorithm` parameter, empty when absent.
pub open spec fn algorithm_param(pairs: Seq<QueryPair>) -> Seq<char> {
    match header_lookup(pairs, "X-Amz-Algorithm"@) {
        Some(a) => a,
        None => Seq::<char>::empty(),
    }
}

/// The bucket and key a URL path names: the path without leading `/`, split
/// at its first remaining `/`.
pub open spec fn path_bucket_key(path: Seq<char>) -> (Seq<char>, Seq<char>) {
    let (bucket, rest) = split_once_char(trim_leading(path, '/'), '/');
    match rest {
        Some(k) => (bucket, k),
        None => (bucket, Seq::<char>::empty()),
    }
}

/// What a pre-signed request with this path and these (decoded) query
/// parameters is answered at time `now`: the bucket and key it grants, or
/// the reason it is refused.
///
/// The expiry instant is the date's timestamp plus `X-Amz-Expires` taken as
/// an `i64`, compared without overflow.
pub open spec fn presign_outcome(
    path: Seq<char>,
    pairs: Seq<QueryPair>,
    now: i64,
    master_key: Seq<u8>,
) -> Result<(Seq<char>, Seq<char>), Seq<char>> {
    match header_lookup(pairs, "X-Amz-Signature"@) {
        None => Err("Missing signature"@),
        Some(sig) => match header_lookup(pairs, "X-Amz-Date"@) {
            None => Err("Missing X-Amz-Date"@),
            Some(date) => match expires_param(pairs) {
                None => Err("Missing or invalid X-Amz-Expires"@),
                Some(exp) => if algorithm_param(pairs) != "AWS4-HMAC-SHA256"@ {
                    Err("Unsupported algorithm"@)
                } else {
                    match amz_date_timestamp(date) {
                        None => Err("Invalid date"@),
                        Some(ts) => if now as int > ts as int + (exp as i64) as int {
                            Err("Pre-signed URL expired"@)
                        } else {
                            let (bucket, key) = path_bucket_key(path);
                            if bucket.len() == 0 || key.len() == 0 {
                                Err("Invalid bucket or key"@)
                            } else {
                                let query = join_with(
                                    pairs_without(pairs, "X-Amz-Signature"@).map_values(|p: QueryPair| pair_text(p)),
                                    "&"@,
                                );
                                let uri = "/"@ + trim_leading(path, '/');
                                if presign_signature(master_key, uri, query) != sig {
                                    Err("Signature mismatch"@)
                                } else {
                                    Ok((bucket, key))
                                }
                            }
                        },
                    }
                },
            },
        },
    }
}

/// Whether the answer matches the outcome: the bucket, key and `GET`, or the
/// refusal message.
pub open spec fn answers(r: Result<(String, String, String), &'static str>, o: Result<(Seq<char>, Seq<char>), Seq<char>>) -> bool {
    match o {
        Ok(bk) => r matches Ok(t) && t.0@ == bk.0 && t.1@ == bk.1 && t.2@ == "GET"@,
        Err(m) => r matches Err(e) && e@ == m,
    }
}

pub(crate) fn trim_leading_exec(v: &[char], c: char) -> (r: usize)
    ensures
        r <= v@.len(),
        v@.skip(r as int) == trim_leading(v@, c),
{
    let mut i: usize = 0;
    assert(v@.skip(0) =~= v@);
    while i < v.len() && v[i] == c
        invariant
            i <= v@.len(),
            v@.len() == v.len(),
            trim_leading(v@, c) == trim_leading(v@.skip(i as int), c),
        decreases v.len() - i,
    {
        assert(v@.skip(i as int).drop_first() =~= v@.skip(i + 1));
        i = i + 1;
    }
    i
}

/// Checks a pre-signed request, given its URL path, its decoded query
/// parameters and the current time.
pub fn check_presigned(
    path: &str,
    pairs: &[(String, String)],
    now: i64,
    master_key: &[u8],
) -> (r: Result<(String, String, String), &'static str>)
    ensures
        answers(r, presign_outcome(path@, pair_views(pairs@), now, master_key@)),
{
    let ghost pv = pair_views(pairs@);
    let signature = match find_header(pairs, "X-Amz-Signature") {
        Some(s) => s,
        None => return Err("Missing signature"),
    };
    let amz_date = match find_header(pairs, "X-Amz-Date") {
        Some(d) => d,
        None => return Err("Missing X-Amz-Date"),
    };
    let expires = match find_header(pairs, "X-Amz-Expires") {
        Some(e) => match parse_u64(chars_of(e.as_str()).as_slice()) {
            Some(x) => x,
            None => return Err("Missing or invalid X-Amz-Expires"),
        },
        None => return Err("Missing or invalid X-Amz-Expires"),
    };
    let algorithm = match find_header(pairs, "X-Amz-Algorithm") {
        Some(a) => a,
        None => String::new(),
    };
    if !str_eq(algorithm.as_str(), "AWS4-HMAC-SHA256") {
        return Err("Unsupported algorithm");
    }
    let ts = match parse_amz_date(amz_date.as_str()) {
        Some(t) => t,
        None => return Err("Invalid date"),
    };
    #[verifier::truncate]
    let exp_i64 = expires as i64;
    let expires_at: i128 = ts as i128 + exp_i64 as i128;
    if (now as i128) > expires_at {
        return Err("Pre-signed URL expired");
    }
    let pvv = chars_of(path);
    let start = trim_leading_exec(pvv.as_slice(), '/');
    let trimmed = slice_chars(pvv.as_slice(), start, pvv.len());
    assert(trimmed@ =~= trim_leading(path@, '/'));
    let (bucket, rest) = split_once(trimmed.as_slice(), '/');
    let key: Vec<char> = match rest {
        Some(k) => k,
        None => Vec::new(),
    };
    if bucket.len() == 0 || key.len() == 0 {
        return Err("Invalid bucket or key");
    }
    // The canonical query: every parameter but the signature, in order.
    let n = pairs.len();
    let mut texts: Vec<Vec<char>> = Vec::new();
    let ghost mut kept: Seq<QueryPair> = Seq::empty();
    assert(pv.take(0) =~= Seq::<QueryPair>::empty());
    for i in 0..n
        invariant
            n == pairs@.len(),
            pv == pair_views(pairs@),
            kept == pairs_without(pv.take(i as int), "X-Amz-Signature"@),
            texts@.len() == kept.len(),
            forall|k: int| 0 <= k < kept.len() ==> #[trigger] texts@[k]@ == pair_text(kept[k]),
    {
        assert(pv.take(i + 1).drop_last() =~= pv.take(i as int));
        assert(pv.take(i + 1).last() == pv[i as int]);
        assert(pv[i as int] == (pairs@[i as int].0@, pairs@[i as int].1@));
        if !str_eq(pairs[i].0.as_str(), "X-Amz-Signature") {
            let mut t: Vec<char> = chars_of(pairs[i].0.as_str());
            t.push('=');
            t.extend_from_slice(chars_of(pairs[i].1.as_str()).as_slice());
            proof {
                reveal_strlit("=");
                kept = kept.push(pv[i as int]);
            }
            assert(t@ =~= pair_text(pv[i as int]));
            texts.push(t);
        }
    }
    assert(pv.take(n as int) =~= pv);
    let query = join_pieces(texts.as_slice(), chars_of("&").as_slice());
    assert(texts@.map_values(|p: Vec<char>| p@) =~= kept.map_values(|p: QueryPair| pair_text(p)));
    let mut uri: Vec<char> = Vec::new();
    uri.push('/');
    uri.extend_from_slice(trimmed.as_slice());
    proof {
        reveal_strlit("/");
    }
    assert(uri@ =~= "/"@ + trim_leading(path@, '/'));
    let expected = sign(master_key, uri.as_slice(), query.as_slice());
    if !chars_eq(expected.as_slice(), chars_of(signature.as_str()).as_slice()) {
        return Err("Signature mismatch");
    }
    let mut get = String::new();
    push_str(&mut get, "GET");
    Ok((string_of(bucket.as_slice()), string_of(key.as_slice()), get))
}

/// The absolute URL of a request URI: a URI in origin form (`/path?query`,
/// as a server receives it) is taken on `http://host`; others as they are.
pub open spec fn absolute_uri(uri: Seq<char>, host: Seq<char>) -> Seq<char> {
    if uri.len() > 0 && uri[0] == '/' {
        "http://"@ + host + uri
    } else {
        uri
    }
}

/// Validates a pre-signed request URI, absolute or in origin form (then
/// taken on `host`).
///
/// Answers the bucket, key and `GET` when the URI parses, carries all the
/// pre-signing parameters, has not expired and is signed by the master key;
/// otherwise the reason it is refused.
pub fn validate_presigned_request(
    uri: &str,
    host: &str,
    master_key: &[u8],
) -> (r: Result<(String, String, String), &'static str>)
    ensures
        match url_path_and_pairs(absolute_uri(uri@, host@)) {
            None => r matches Err(e) && e@ == "Invalid URL"@,
            Some(pq) => exists|now: i64| answers(r, presign_outcome(pq.0, pq.1, now, master_key@)),
        },
{
    let uv = chars_of(uri);
    let mut full = String::new();
    if uv.len() > 0 && uv[0] == '/' {
        push_str(&mut full, "http://");
        push_str(&mut full, host);
    }
    push_str(&mut full, uri);
    proof {
        reveal_strlit("http://");
    }
    assert(full@ =~= absolute_uri(uri@, host@));
    let (path, pairs) = match parse_url(full.as_str()) {
        Some(pq) => pq,
        None => return Err("Invalid URL"),
    };
    let now = now_timestamp();
    let r = check_presigned(path.as_str(), pairs.as_slice(), now, master_key);
    assert(answers(r, presign_outcome(path@, pair_views(pairs@), now, master_key@)));
    let ghost pq = url_path_and_pairs(absolute_uri(uri@, host@)).unwrap();
    assert(pq.0 == path@ && pq.1 == pair_views(pairs@));
    assert(answers(r, presign_outcome(pq.0, pq.1, now, master_key@)));
    r
}

// ---------------------------------------------------------------------------
// Round trip
// ---------------------------------------------------------------------------

/// The parameters of a pre-signed URL as its query decodes: the query of
/// `presigned_url`, with the credential's `%2F` decoded, then the signature.
pub open spec fn presign_pairs(amz_date: Seq<char>, expires: u64, signature: Seq<char>) -> Seq<QueryPair> {
    seq![
        ("X-Amz-Algorithm"@, "AWS4-HMAC-SHA256"@),
        ("X-Amz-Credential"@, presign_credential()),
        ("X-Amz-Date"@, amz_date),
        ("X-Amz-Expires"@, decimal(expires as nat)),
        ("X-Amz-SignedHeaders"@, "host"@),
        ("X-Amz-Signature"@, signature),
    ]
}

proof fn lemma_pairs_without_absent(pairs: Seq<QueryPair>, name: Seq<char>)
    requires
        forall|i: int| 0 <= i < pairs.len() ==> (#[trigger] pairs[i]).0 != name,
    ensures
        pairs_without(pairs, name) == pairs,
    decreases pairs.len(),
{
    if pairs.len() > 0 {
        lemma_pairs_without_absent(pairs.drop_last(), name);
        assert(pairs.drop_last().push(pairs.last()) =~= pairs);
    }
}

proof fn lemma_presign_path(bucket: Seq<char>, key: Seq<char>)
    requires
        bucket.len() > 0,
        forall|i: int| 0 <= i < bucket.len() ==> bucket[i] != '/',
        key.len() > 0,
    ensures
        path_bucket_key(presign_path(bucket, key)) == (bucket, key),
        "/"@ + trim_leading(presign_path(bucket, key), '/') == presign_path(bucket, key),
{
    reveal_strlit("/");
    let path = presign_path(bucket, key);
    let rest = bucket + "/"@ + key;
    assert(path.drop_first() =~= rest);
    assert(rest[0] == bucket[0]);
    assert(trim_leading(rest, '/') == rest);
    assert(trim_leading(path, '/') == rest);
    assert forall|k: int| 0 <= k < bucket.len() implies rest[k] != '/' by {
        assert(rest[k] == bucket[k]);
    }
    crate::text::lemma_find_char(rest, '/', bucket.len() as int);
    assert(rest.take(bucket.len() as int) =~= bucket);
    assert(rest.skip(bucket.len() as int + 1) =~= key);
    assert("/"@ + rest =~= path);
}

/// A pre-signed URL validates until it expires: the parameters of the URL
/// made for `bucket/key` at `amz_date` under `signing_key`, checked under
/// `master_key` at time `now`, are answered with the bucket and key when
/// the URL has not expired and the two keys give the same signature, as
/// the same key does; an expired URL is refused as expired, and one signed
/// otherwise with a signature mismatch.
pub proof fn law_presigned_url_validates(
    bucket: Seq<char>,
    key: Seq<char>,
    expires: u64,
    amz_date: Seq<char>,
    ts: i64,
    now: i64,
    signing_key: Seq<u8>,
    master_key: Seq<u8>,
)
    requires
        bucket.len() > 0,
        forall|i: int| 0 <= i < bucket.len() ==> bucket[i] != '/',
        key.len() > 0,
        expires <= i64::MAX,
        amz_date_timestamp(amz_date) == Some(ts),
    ensures
        ({
            let path = presign_path(bucket, key);
            let query = presign_signed_query(amz_date, expires);
            let sig = presign_signature(signing_key, path, query);
            presign_outcome(path, presign_pairs(amz_date, expires, sig), now, master_key) == if now > ts + expires {
                Err::<(Seq<char>, Seq<char>), Seq<char>>("Pre-signed URL expired"@)
            } else if presign_signature(master_key, path, query) == sig {
                Ok::<(Seq<char>, Seq<char>), Seq<char>>((bucket, key))
            } else {
                Err::<(Seq<char>, Seq<char>), Seq<char>>("Signature mismatch"@)
            }
        }),
{
    let path = presign_path(bucket, key);
    let query = presign_signed_query(amz_date, expires);
    let sig = presign_signature(signing_key, path, query);
    let pairs = presign_pairs(amz_date, expires, sig);
    let alg = "X-Amz-Algorithm"@;
    let cred = "X-Amz-Credential"@;
    let date = "X-Amz-Date"@;
    let exp = "X-Amz-Expires"@;
    let signed = "X-Amz-SignedHeaders"@;
    let signame = "X-Amz-Signature"@;
    reveal_strlit("X-Amz-Algorithm");
    reveal_strlit("X-Amz-Credential");
    reveal_strlit("X-Amz-Date");
    reveal_strlit("X-Amz-Expires");
    reveal_strlit("X-Amz-SignedHeaders");
    reveal_strlit("X-Amz-Signature");
    assert(alg[6] != signame[6]);
    assert(alg != signame && cred != signame && date != signame && exp != signame && signed != signame);
    assert(alg != date && cred != date);
    assert(alg != exp && cred != exp && date != exp);
    crate::sigv4::lemma_header_lookup_at(pairs, signame, 5);
    crate::sigv4::lemma_header_lookup_at(pairs, date, 2);
    crate::sigv4::lemma_header_lookup_at(pairs, exp, 3);
    crate::sigv4::lemma_header_lookup_at(pairs, alg, 0);
    crate::text::lemma_decimal_parses(expires);
    assert(expires_param(pairs) == Some(expires));
    assert(algorithm_param(pairs) == "AWS4-HMAC-SHA256"@);
    assert((expires as i64) as int == expires as int);
    lemma_presign_path(bucket, key);
    let kept = pairs.drop_last();
    assert(pairs.last().0 == signame);
    assert forall|i: int| 0 <= i < kept.len() implies (#[trigger] kept[i]).0 != signame by {
        assert(kept[i] == pairs[i]);
    }
    lemma_pairs_without_absent(kept, signame);
    assert(pairs_without(pairs, signame) == kept);
    let texts = kept.map_values(|p: QueryPair| pair_text(p));
    let amp = "&"@;
    assert(texts.take(1).drop_last() =~= Seq::<Seq<char>>::empty());
    assert(join_with(texts.take(1), amp) == texts[0]);
    assert(texts.take(2).drop_last() =~= texts.take(1));
    assert(texts.take(3).drop_last() =~= texts.take(2));
    assert(texts.take(4).drop_last() =~= texts.take(3));
    assert(texts.take(5).drop_last() =~= texts.take(4));
    assert(texts.take(5) =~= texts);
    assert(join_with(texts.take(2), amp) == texts[0] + amp + texts[1]);
    assert(join_with(texts.take(3), amp) == texts[0] + amp + texts[1] + amp + texts[2]);
    assert(join_with(texts.take(4), amp) == texts[0] + amp + texts[1] + amp + texts[2] + amp + texts[3]);
    assert(join_with(texts.take(5), amp) == texts[0] + amp + texts[1] + amp + texts[2] + amp + texts[3] + amp + texts[4]);
    assert(texts[0] == alg + "="@ + "AWS4-HMAC-SHA256"@);
    assert(texts[1] == cred + "="@ + presign_credential());
    assert(texts[2] == date + "="@ + amz_date);
    assert(texts[3] == exp + "="@ + decimal(expires as nat));
    assert(texts[4] == signed + "="@ + "host"@);
    assert(join_with(texts, amp) =~= query);
}

} // verus!
