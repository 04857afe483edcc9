//! The decisions of the S3 object operations: byte ranges, server-side
//! encryption headers, delete markers and content hashes.
use vstd::prelude::*;
use vstd::string::*;
use crate::error::Error;
use crate::encryption::{
    decode_sse_c_key, decrypt_answers, decrypt_outcome, encrypts, key_hmac_text, sse_c_key_outcome,
    EncryptionInfo, MasterKeyManager,
};
use crate::outside::{aes_gcm_max_plaintext, md5, md5_digest, sha256, sha256_digest};
use crate::text::{
    chars_of, decimal, has_prefix, hex_encode, hex_lower, parse_u64, parse_u64_spec, push_chars,
    push_decimal, push_str, slice_chars, split_once, split_once_char, str_eq, string_of,
};

verus! {

// ---------------------------------------------------------------------------
// Byte ranges
// ---------------------------------------------------------------------------

/// What follows `bytes=` in a Range header.
pub open spec fn range_spec_of(h: Seq<char>) -> Seq<char> {
    h.skip(6)
}

/// Whether a Range header is an open range `bytes=N-` with a valid start.
pub open spec fn open_ended_range(h: Seq<char>) -> bool {
    let r = range_spec_of(h);
    &&& has_prefix(h, "bytes="@)
    &&& !(r.len() > 0 && r[0] == '-')
    &&& split_once_char(r, '-').1 == Some(Seq::<char>::empty())
    &&& parse_u64_spec(split_once_char(r, '-').0) is Some
}

/// The inclusive byte range `(start, end)` a Range header selects from a
/// body of `total` bytes, `None` when the header is not a satisfiable
/// `bytes=start-end`, `bytes=start-` or `bytes=-suffix`.  An end past the
/// body is cut to its last byte.
pub open spec fn range_outcome(h: Seq<char>, total: u64) -> Option<(u64, u64)> {
    if !has_prefix(h, "bytes="@) {
        None
    } else {
        let r = range_spec_of(h);
        if r.len() > 0 && r[0] == '-' {
            match parse_u64_spec(r.drop_first()) {
                None => None,
                Some(n) => if n == 0 || n > total {
                    None
                } else {
                    Some(((total - n) as u64, (total - 1) as u64))
                },
            }
        } else {
            match split_once_char(r, '-').1 {
                None => None,
                Some(b) => match parse_u64_spec(split_once_char(r, '-').0) {
                    None => None,
                    Some(start) => {
                        let end_opt = if b.len() == 0 {
                            Some((total - 1) as u64)
                        } else {
                            parse_u64_spec(b)
                        };
                        match end_opt {
                            None => None,
                            Some(end) => if start > end || start >= total {
                                None
                            } else if end < total - 1 {
                                Some((start, end))
                            } else {
                                Some((start, (total - 1) as u64))
                            },
                        }
                    },
                },
            }
        }
    }
}

/// Whether a Range header is an open range `bytes=N-` with a valid start,
/// whose last byte is that of the body.
pub fn is_open_ended_range(range_header: &str) -> (r: bool)
    ensures
        r == open_ended_range(range_header@),
{
    let hv = chars_of(range_header);
    let prefix = chars_of("bytes=");
    if !crate::text::starts_with(hv.as_slice(), prefix.as_slice()) {
        return false;
    }
    proof {
        reveal_strlit("bytes=");
    }
    let spec = slice_chars(hv.as_slice(), 6, hv.len());
    assert(spec@ =~= range_spec_of(range_header@));
    if spec.len() > 0 && spec[0] == '-' {
        return false;
    }
    let (a, rest) = split_once(spec.as_slice(), '-');
    match rest {
        Some(b) => {
            if b.len() != 0 {
                return false;
            }
            assert(b@ =~= Seq::<char>::empty());
            parse_u64(a.as_slice()).is_some()
        },
        None => false,
    }
}

/// Reads a Range header against a body of `total_len` bytes.
///
/// Fails with `InvalidRange` when the header selects no satisfiable range.
/// An open range `bytes=N-` over an empty body is left out: there the
/// computation of the last byte would underflow.
pub fn parse_range(range_header: &str, total_len: u64) -> (r: Result<(u64, u64), Error>)
    requires
        total_len > 0 || !open_ended_range(range_header@),
    ensures
        match range_outcome(range_header@, total_len) {
            Some(se) => r matches Ok(x) && x == se,
            None => r matches Err(Error::InvalidRange),
        },
        r matches Ok(x) ==> x.0 <= x.1 < total_len,
{
    let hv = chars_of(range_header);
    let prefix = chars_of("bytes=");
    if !crate::text::starts_with(hv.as_slice(), prefix.as_slice()) {
        return Err(Error::InvalidRange);
    }
    proof {
        reveal_strlit("bytes=");
    }
    let spec = slice_chars(hv.as_slice(), 6, hv.len());
    assert(spec@ =~= range_spec_of(range_header@));
    if spec.len() > 0 && spec[0] == '-' {
        let digits = slice_chars(spec.as_slice(), 1, spec.len());
        assert(digits@ =~= spec@.drop_first());
        let n = match parse_u64(digits.as_slice()) {
            Some(n) => n,
            None => return Err(Error::InvalidRange),
        };
        if n == 0 || n > total_len {
            return Err(Error::InvalidRange);
        }
        return Ok((total_len - n, total_len - 1));
    }
    let (a, rest) = split_once(spec.as_slice(), '-');
    let b = match rest {
        Some(b) => b,
        None => return Err(Error::InvalidRange),
    };
    let start = match parse_u64(a.as_slice()) {
        Some(s) => s,
        None => return Err(Error::InvalidRange),
    };
    let end = if b.len() == 0 {
        assert(b@ =~= Seq::<char>::empty());
        total_len - 1
    } else {
        match parse_u64(b.as_slice()) {
            Some(e) => e,
            None => return Err(Error::InvalidRange),
        }
    };
    if start > end || start >= total_len {
        return Err(Error::InvalidRange);
    }
    let end = if end < total_len - 1 {
        end
    } else {
        total_len - 1
    };
    Ok((start, end))
}

/// The `Content-Range` value for a range of a body: `bytes start-end/total`.
pub open spec fn content_range_text(start: u64, end: u64, total: u64) -> Seq<char> {
    "bytes "@ + decimal(start as nat) + "-"@ + decimal(end as nat) + "/"@ + decimal(total as nat)
}

/// Writes the `Content-Range` value for a range of a body.
pub fn content_range(start: u64, end: u64, total: u64) -> (r: String)
    ensures
        r@ == content_range_text(start, end, total),
{
    let mut s = String::new();
    push_str(&mut s, "bytes ");
    let mut d: Vec<char> = Vec::new();
    push_decimal(&mut d, start);
    push_chars(&mut s, d.as_slice());
    push_str(&mut s, "-");
    let mut d2: Vec<char> = Vec::new();
    push_decimal(&mut d2, end);
    push_chars(&mut s, d2.as_slice());
    push_str(&mut s, "/");
    let mut d3: Vec<char> = Vec::new();
    push_decimal(&mut d3, total);
    push_chars(&mut s, d3.as_slice());
    s
}

// ---------------------------------------------------------------------------
// Server-side encryption
// ---------------------------------------------------------------------------

/// How a PUT asks for its object to be encrypted.
pub enum SseType {
    /// No encryption.
    Unencrypted,
    SseS3,
    /// With the customer's base64-encoded key.
    SseC(String),
}

/// Reads the encryption request of a PUT from the values of its
/// `x-amz-server-side-encryption`, `...-customer-algorithm` and
/// `...-customer-key` headers (absent, or not visible ASCII, as `None`).
///
/// `AES256` server-side encryption wins; customer-key encryption needs the
/// `AES256` algorithm and a key; anything else is no encryption.
pub fn parse_sse_type(
    sse: Option<&str>,
    customer_algorithm: Option<&str>,
    customer_key: Option<&str>,
) -> (r: SseType)
    ensures
        match sse {
            Some(v) if v@ == "AES256"@ => r is SseS3,
            _ => match (customer_algorithm, customer_key) {
                (Some(a), Some(k)) if a@ == "AES256"@ => r matches SseType::SseC(key) && key@ == k@,
                _ => r is Unencrypted,
            },
        },
{
    if let Some(v) = sse {
        if str_eq(v, "AES256") {
            return SseType::SseS3;
        }
    }
    if let Some(a) = customer_algorithm {
        if str_eq(a, "AES256") {
            if let Some(k) = customer_key {
                return SseType::SseC(string_of(chars_of(k).as_slice()));
            }
        }
    }
    SseType::Unencrypted
}

/// The response header announcing how a stored object is encrypted, by the
/// mode recorded for it.
pub open spec fn encryption_header_spec(mode: Seq<char>) -> Option<(Seq<char>, Seq<char>)> {
    if mode == "SSE-S3"@ {
        Some(("x-amz-server-side-encryption"@, "AES256"@))
    } else if mode == "SSE-C"@ {
        Some(("x-amz-server-side-encryption-customer-algorithm"@, "AES256"@))
    } else {
        None
    }
}

/// The response header announcing how a stored object is encrypted.
pub fn encryption_header(mode: &str) -> (r: Option<(&'static str, &'static str)>)
    ensures
        match encryption_header_spec(mode@) {
            Some(hv) => r matches Some(x) && x.0@ == hv.0 && x.1@ == hv.1,
            None => r is None,
        },
{
    if str_eq(mode, "SSE-S3") {
        Some(("x-amz-server-side-encryption", "AES256"))
    } else if str_eq(mode, "SSE-C") {
        Some(("x-amz-server-side-encryption-customer-algorithm", "AES256"))
    } else {
        None
    }
}

/// How a stored object is to be decrypted, by the mode recorded for it.
pub enum DecryptPlan {
    /// Under the server's master key.
    MasterKey,
    /// Under the key the customer sends with the request.
    CustomerKey,
    /// Not at all: the stored bytes are served as they are.
    AsStored,
}

/// How a stored object is to be decrypted, by its recorded mode.
pub fn decrypt_plan(mode: &str) -> (r: DecryptPlan)
    ensures
        mode@ == "SSE-S3"@ ==> r is MasterKey,
        mode@ != "SSE-S3"@ && mode@ == "SSE-C"@ ==> r is CustomerKey,
        mode@ != "SSE-S3"@ && mode@ != "SSE-C"@ ==> r is AsStored,
{
    if str_eq(mode, "SSE-S3") {
        DecryptPlan::MasterKey
    } else if str_eq(mode, "SSE-C") {
        DecryptPlan::CustomerKey
    } else {
        DecryptPlan::AsStored
    }
}

/// The headers of a successful PUT: the ETag, a `null` version id, and the
/// header announcing the encryption asked for.
pub open spec fn put_headers_spec(etag: Seq<char>, sse: SseType) -> Seq<(Seq<char>, Seq<char>)> {
    let base = seq![("etag"@, etag), ("x-amz-version-id"@, "null"@)];
    match sse {
        SseType::SseS3 => base.push(("x-amz-server-side-encryption"@, "AES256"@)),
        SseType::SseC(_) => base.push(("x-amz-server-side-encryption-customer-algorithm"@, "AES256"@)),
        SseType::Unencrypted => base,
    }
}

fn owned(t: &str) -> (r: String)
    ensures
        r@ == t@,
{
    let mut s = String::new();
    push_str(&mut s, t);
    s
}

/// The headers of a successful PUT.
pub fn build_put_response(etag: &str, sse_type: &SseType) -> (r: Vec<(String, String)>)
    ensures
        crate::outside::pair_views(r@) == put_headers_spec(etag@, *sse_type),
{
    let mut v: Vec<(String, String)> = Vec::new();
    v.push((owned("etag"), owned(etag)));
    v.push((owned("x-amz-version-id"), owned("null")));
    match sse_type {
        SseType::SseS3 => v.push((owned("x-amz-server-side-encryption"), owned("AES256"))),
        SseType::SseC(_) => v.push((owned("x-amz-server-side-encryption-customer-algorithm"), owned("AES256"))),
        SseType::Unencrypted => {},
    }
    assert(crate::outside::pair_views(v@) =~= put_headers_spec(etag@, *sse_type));
    v
}

// ---------------------------------------------------------------------------
// Objects
// ---------------------------------------------------------------------------

/// Whether a version record is a delete marker: no data hash and no size.
pub fn is_delete_marker(object_hash: &str, size: u64) -> (r: bool)
    ensures
        r == (object_hash@.len() == 0 && size == 0),
{
    chars_of(object_hash).len() == 0 && size == 0
}

/// The ETag of a body: the lower-case hex MD5 of its bytes.
pub fn compute_etag(body: &[u8]) -> (r: String)
    ensures
        r@ == hex_lower(md5_digest(body@)),
{
    let d = md5(body);
    string_of(hex_encode(d.as_slice()).as_slice())
}

/// The content hash of a body, under which its data is stored and
/// deduplicated: the lower-case hex SHA-256 of its bytes.
pub fn content_hash(body: &[u8]) -> (r: String)
    ensures
        r@ == hex_lower(sha256_digest(body@)),
{
    let d = sha256(body);
    string_of(hex_encode(d.as_slice()).as_slice())
}

// ---------------------------------------------------------------------------
// Storing and serving object data
// ---------------------------------------------------------------------------

/// The storage class a PUT asks for: its `x-amz-storage-class` header, else
/// `STANDARD`.
pub fn storage_class_or_default(header: Option<&str>) -> (r: &str)
    ensures
        r@ == match header {
            Some(h) => h@,
            None => "STANDARD"@,
        },
{
    match header {
        Some(h) => h,
        None => "STANDARD",
    }
}

/// The content type an object is served with: the recorded one, else
/// `application/octet-stream`.
pub fn content_type_or_default(ct: Option<&str>) -> (r: &str)
    ensures
        r@ == match ct {
            Some(c) => c@,
            None => "application/octet-stream"@,
        },
{
    match ct {
        Some(c) => c,
        None => "application/octet-stream",
    }
}

/// Whether a PUT writes the data to its pool: always with a customer key
/// (whose ciphertexts differ from one upload to the next), else only when
/// the catalogue did not already count a copy of the same content.
pub fn needs_physical_write(sse: &SseType, dedup_hit: bool) -> (r: bool)
    ensures
        r == (sse is SseC || !dedup_hit),
{
    match sse {
        SseType::SseC(_) => true,
        _ => !dedup_hit,
    }
}

/// The bytes a PUT stores and the record of their encryption: the body as
/// it is, or encrypted under the master key, or under the customer's key
/// (which must decode to 32 bytes).
pub fn encrypt_for_put(km: &MasterKeyManager, body: &[u8], sse: &SseType) -> (r: Result<(Vec<u8>, Option<EncryptionInfo>), Error>)
    ensures
        match sse {
            SseType::Unencrypted => r matches Ok(d) && d.0@ == body@ && d.1 is None,
            SseType::SseS3 => (r is Err <==> body@.len() > aes_gcm_max_plaintext())
                && (r matches Ok(d) ==> (d.1 matches Some(i) && encrypts(d.0@, i, body@, km.key(), "SSE-S3"@))),
            SseType::SseC(k) => match sse_c_key_outcome(k@) {
                Err(m) => r matches Err(Error::InvalidHeaderValue(e)) && e@ == m,
                Ok(key) => (r is Err <==> body@.len() > aes_gcm_max_plaintext())
                    && (r matches Ok(d) ==> (d.1 matches Some(i) && encrypts(d.0@, i, body@, key, "SSE-C"@))),
            },
        },
{
    match sse {
        SseType::SseS3 => {
            match km.encrypt_sse_s3(body) {
                Ok((c, i)) => Ok((c, Some(i))),
                Err(e) => Err(e),
            }
        },
        SseType::SseC(k) => {
            let key = match decode_sse_c_key(k.as_str()) {
                Ok(key) => key,
                Err(e) => return Err(e),
            };
            match km.encrypt_sse_c(body, &key) {
                Ok((c, i)) => Ok((c, Some(i))),
                Err(e) => Err(e),
            }
        },
        SseType::Unencrypted => {
            let mut v: Vec<u8> = Vec::new();
            let mut i: usize = 0;
            while i < body.len()
                invariant
                    i <= body@.len(),
                    v@ == body@.take(i as int),
                decreases body.len() - i,
            {
                v.push(body[i]);
                i = i + 1;
                assert(v@ =~= body@.take(i as int));
            }
            assert(body@.take(body@.len() as int) =~= body@);
            Ok((v, None))
        },
    }
}

/// Whether what decrypting under `key` gave is what the recorded encryption
/// promises: a refusal when the recorded key HMAC is another key's, else the
/// outcome of decrypting, and in any case the plaintext of an encryption
/// that produced these bytes.
pub open spec fn decrypted_under(r: Result<Vec<u8>, Error>, raw: Seq<u8>, info: EncryptionInfo, key: Seq<u8>) -> bool {
    &&& key_hmac_text(key) != info.key_hmac@ ==> (r matches Err(Error::DecryptionError(m))
        && m@ == "Key verification failed — wrong encryption key"@)
    &&& key_hmac_text(key) == info.key_hmac@ ==> decrypt_answers(r, decrypt_outcome(raw, key, info.iv@))
    &&& forall|p: Seq<u8>, mode: Seq<char>|
        p.len() <= aes_gcm_max_plaintext() && #[trigger] encrypts(raw, info, p, key, mode) ==> (r matches Ok(v) && v@ == p)
}

/// The data a GET serves from the stored bytes of an object encrypted as
/// `info` records: decrypted under the master key for `SSE-S3`, under the
/// key the request sends for `SSE-C` (a missing key header is an error),
/// and as stored otherwise.
pub fn decrypt_stored(km: &MasterKeyManager, raw: Vec<u8>, info: &EncryptionInfo, customer_key: Option<&str>) -> (r: Result<Vec<u8>, Error>)
    ensures
        info.mode@ == "SSE-S3"@ ==> decrypted_under(r, raw@, *info, km.key()),
        info.mode@ == "SSE-C"@ ==> match customer_key {
            None => r matches Err(Error::MissingHeader(h)) && h@ == "x-amz-server-side-encryption-customer-key"@,
            Some(k) => match sse_c_key_outcome(k@) {
                Err(m) => r matches Err(Error::InvalidHeaderValue(e)) && e@ == m,
                Ok(key) => decrypted_under(r, raw@, *info, key),
            },
        },
        info.mode@ != "SSE-S3"@ && info.mode@ != "SSE-C"@ ==> (r matches Ok(v) && v@ == raw@),
{
    proof {
        reveal_strlit("SSE-S3");
        reveal_strlit("SSE-C");
        assert("SSE-S3"@[4] != "SSE-C"@[4]);
    }
    match decrypt_plan(info.mode.as_str()) {
        DecryptPlan::MasterKey => km.decrypt_sse_s3(raw.as_slice(), info),
        DecryptPlan::CustomerKey => {
            let k = match customer_key {
                Some(k) => k,
                None => return Err(Error::MissingHeader("x-amz-server-side-encryption-customer-key".to_string())),
            };
            let key = match decode_sse_c_key(k) {
                Ok(key) => key,
                Err(e) => return Err(e),
            };
            km.decrypt_sse_c(raw.as_slice(), info, &key)
        },
        DecryptPlan::AsStored => Ok(raw),
    }
}

/// What a PUT stored encrypted, a GET that decrypts under the same key
/// serves back: whenever the stored bytes and record are an encryption of
/// `plaintext` under `key`, a decryption that answers as `decrypt_stored`
/// promises gives `plaintext`.
pub proof fn law_stored_data_reads_back(
    r: Result<Vec<u8>, Error>,
    raw: Seq<u8>,
    info: EncryptionInfo,
    key: Seq<u8>,
    plaintext: Seq<u8>,
    mode: Seq<char>,
)
    requires
        decrypted_under(r, raw, info, key),
        encrypts(raw, info, plaintext, key, mode),
        plaintext.len() <= aes_gcm_max_plaintext(),
    ensures
        r matches Ok(v) && v@ == plaintext,
{
}

/// The Range header `bytes=start-end`.
pub open spec fn byte_range_header(start: u64, end: u64) -> Seq<char> {
    "bytes="@ + decimal(start as nat) + "-"@ + decimal(end as nat)
}

/// A range `bytes=s-e` over a body of `total` bytes selects bytes `s` to
/// `e` (the end cut to the last byte): every such range is served, a range
/// of one byte (`s == e`) included, and one is refused exactly when it
/// starts after its end or past the body.
pub proof fn law_byte_range_selects_what_it_names(start: u64, end: u64, total: u64)
    requires
        total > 0,
    ensures
        range_outcome(byte_range_header(start, end), total) == if start > end || start >= total {
            None::<(u64, u64)>
        } else if end < total {
            Some((start, end))
        } else {
            Some((start, (total - 1) as u64))
        },
{
    reveal_strlit("bytes=");
    reveal_strlit("-");
    let h = byte_range_header(start, end);
    let ds = decimal(start as nat);
    let de = decimal(end as nat);
    crate::text::lemma_decimal_digits(start as nat);
    crate::text::lemma_decimal_digits(end as nat);
    crate::text::lemma_decimal_parses(start);
    crate::text::lemma_decimal_parses(end);
    assert(h.take(6) =~= "bytes="@);
    let r = range_spec_of(h);
    assert(r =~= ds + "-"@ + de);
    assert(crate::text::is_digit(ds[0]));
    assert(r[0] == ds[0]);
    assert forall|k: int| 0 <= k < ds.len() implies r[k] != '-' by {
        assert(r[k] == ds[k]);
        assert(crate::text::is_digit(ds[k]));
    }
    assert(r[ds.len() as int] == '-');
    crate::text::lemma_find_char(r, '-', ds.len() as int);
    assert(r.take(ds.len() as int) =~= ds);
    assert(r.skip(ds.len() as int + 1) =~= de);
    assert(split_once_char(r, '-').0 == ds);
    assert(split_once_char(r, '-').1 == Some(de));
}

} // verus!
