//! AWS Signature Version 4 (`AWS4-HMAC-SHA256`) request authentication.
//!
//! A request is authenticated in two steps, with the access key lookup in
//! between: `parse_authorization` reads the `Authorization` header, the
//! caller looks up the secret key of the access key it names, and
//! `verify_signature` recomputes the signature and compares it.
//!
//! Headers are given as (name, value) pairs with lower-case names; a name is
//! looked up by its first pair.
use vstd::prelude::*;
use crate::error::Error;
use crate::outside::{hmac_sha256, hmac_sha256_tag, pair_views, sha256, sha256_digest};
use vstd::utf8::encode_utf8;
use crate::text::{
    chars_eq, chars_of, has_prefix, hex_encode, hex_lower, join_pieces, join_with, lower_case,
    push_chars, push_str, slice_chars, split_char, split_on, split_once, split_once_char,
    starts_with, str_eq, string_of, to_lower, trim_chars, trim_ws,
};

verus! {

// ---------------------------------------------------------------------------
// Headers
// ---------------------------------------------------------------------------

/// The value of the first header named `name`.
pub open spec fn header_lookup(hs: Seq<(Seq<char>, Seq<char>)>, name: Seq<char>) -> Option<Seq<char>>
    decreases hs.len(),
{
    if hs.len() == 0 {
        None
    } else if hs[0].0 == name {
        Some(hs[0].1)
    } else {
        header_lookup(hs.drop_first(), name)
    }
}

/// The first header named `name` is the one at `i` when none before it has
/// that name.
pub proof fn lemma_header_lookup_at(hs: Seq<(Seq<char>, Seq<char>)>, name: Seq<char>, i: int)
    requires
        0 <= i < hs.len(),
        hs[i].0 == name,
        forall|j: int| 0 <= j < i ==> hs[j].0 != name,
    ensures
        header_lookup(hs, name) == Some(hs[i].1),
    decreases i,
{
    if i > 0 {
        assert(hs[0].0 != name);
        lemma_header_lookup_at(hs.drop_first(), name, i - 1);
    }
}

/// The value of the first header named `name`.
pub fn find_header(hs: &[(String, String)], name: &str) -> (r: Option<String>)
    ensures
        match r {
            Some(v) => header_lookup(pair_views(hs@), name@) == Some(v@),
            None => header_lookup(pair_views(hs@), name@) is None,
        },
{
    let ghost views = pair_views(hs@);
    let n = hs.len();
    assert(views.skip(0) =~= views);
    for i in 0..n
        invariant
            n == hs@.len(),
            views == pair_views(hs@),
            header_lookup(views, name@) == header_lookup(views.skip(i as int), name@),
    {
        assert(views.skip(i as int)[0] == (hs@[i as int].0@, hs@[i as int].1@));
        assert(views.skip(i as int).drop_first() =~= views.skip(i + 1));
        if str_eq(hs[i].0.as_str(), name) {
            return Some(hs[i].1.clone());
        }
    }
    None
}

/// Whether a request carries an `authorization` header, that is, asks to
/// be authenticated with AWS credentials.
pub fn is_aws_auth_request(headers: &[(String, String)]) -> (r: bool)
    ensures
        r == header_lookup(pair_views(headers@), "authorization"@) is Some,
{
    find_header(headers, "authorization").is_some()
}

/// The UTF-8 bytes of a string.
pub fn utf8_bytes(s: &str) -> (r: Vec<u8>)
    ensures
        r@ == vstd::utf8::encode_utf8(s@),
{
    vstd::slice::slice_to_vec(s.as_bytes())
}

// ---------------------------------------------------------------------------
// The Authorization header
// ---------------------------------------------------------------------------

/// What follows `AWS4-HMAC-SHA256 ` in the header value (empty when the
/// value does not start with it).
pub open spec fn auth_value(auth: Seq<char>) -> Seq<char> {
    if has_prefix(auth, "AWS4-HMAC-SHA256 "@) {
        auth.skip("AWS4-HMAC-SHA256 "@.len() as int)
    } else {
        Seq::<char>::empty()
    }
}

/// The comma-separated fields of the header value, each trimmed.
pub open spec fn auth_fields(auth: Seq<char>) -> Seq<Seq<char>> {
    split_char(auth_value(auth), ',').map_values(|p: Seq<char>| trim_ws(p))
}

/// What follows `prefix` in the last field that starts with it (empty if none does).
pub open spec fn last_field(fields: Seq<Seq<char>>, prefix: Seq<char>) -> Seq<char>
    decreases fields.len(),
{
    if fields.len() == 0 {
        Seq::<char>::empty()
    } else if has_prefix(fields.last(), prefix) {
        fields.last().skip(prefix.len() as int)
    } else {
        last_field(fields.drop_last(), prefix)
    }
}

/// The `Credential=` field of the header value.
pub open spec fn credential_of(auth: Seq<char>) -> Seq<char> {
    last_field(auth_fields(auth), "Credential="@)
}

/// The `SignedHeaders=` field of the header value.
pub open spec fn signed_headers_of(auth: Seq<char>) -> Seq<char> {
    last_field(auth_fields(auth), "SignedHeaders="@)
}

/// The `Signature=` field of the header value.
pub open spec fn signature_of(auth: Seq<char>) -> Seq<char> {
    last_field(auth_fields(auth), "Signature="@)
}

/// Whether the header value is one this server accepts for parsing: it names
/// the algorithm, and its credential has five `/`-separated parts of which
/// the fourth, the service, is `s3`.
pub open spec fn auth_well_formed(auth: Seq<char>) -> bool {
    let cred = split_char(credential_of(auth), '/');
    &&& has_prefix(auth, "AWS4-HMAC-SHA256"@)
    &&& cred.len() == 5
    &&& cred[3] == "s3"@
}

/// The parts of an `Authorization` header that signature checking needs.
pub struct AuthorizationParts {
    pub access_key_id: String,
    pub date: String,
    pub region: String,
    pub signed_headers: String,
    pub signature: String,
}

/// What the header value says: the access key, date and region of its
/// credential, and its signed headers and signature.
pub open spec fn parts_match(p: AuthorizationParts, auth: Seq<char>) -> bool {
    let cred = split_char(credential_of(auth), '/');
    &&& p.access_key_id@ == cred[0]
    &&& p.date@ == cred[1]
    &&& p.region@ == cred[2]
    &&& p.signed_headers@ == signed_headers_of(auth)
    &&& p.signature@ == signature_of(auth)
}

/// Reads the `Authorization` header of a request.
///
/// Fails with `MissingHeader("authorization")` when there is none, and with
/// `SignatureMismatch` when it does not name `AWS4-HMAC-SHA256` or its
/// credential is not `key/date/region/s3/aws4_request`-shaped.
pub fn parse_authorization(headers: &[(String, String)]) -> (r: Result<AuthorizationParts, Error>)
    ensures
        match header_lookup(pair_views(headers@), "authorization"@) {
            None => r matches Err(Error::MissingHeader(h)) && h@ == "authorization"@,
            Some(auth) => if auth_well_formed(auth) {
                r matches Ok(p) && parts_match(p, auth)
            } else {
                r matches Err(Error::SignatureMismatch)
            },
        },
{
    let auth = match find_header(headers, "authorization") {
        Some(a) => a,
        None => {
            let mut h = String::new();
            push_str(&mut h, "authorization");
            return Err(Error::MissingHeader(h));
        },
    };
    let av = chars_of(auth.as_str());
    let algo = chars_of("AWS4-HMAC-SHA256");
    if !starts_with(av.as_slice(), algo.as_slice()) {
        return Err(Error::SignatureMismatch);
    }
    let algo_sp = chars_of("AWS4-HMAC-SHA256 ");
    let value: Vec<char> = if starts_with(av.as_slice(), algo_sp.as_slice()) {
        slice_chars(av.as_slice(), algo_sp.len(), av.len())
    } else {
        Vec::new()
    };
    assert(value@ =~= auth_value(av@));
    let raw = split_on(value.as_slice(), ',');
    let ghost fields = auth_fields(av@);
    let cred_p = chars_of("Credential=");
    let sh_p = chars_of("SignedHeaders=");
    let sig_p = chars_of("Signature=");
    let mut credential: Vec<char> = Vec::new();
    let mut signed_headers: Vec<char> = Vec::new();
    let mut signature: Vec<char> = Vec::new();
    let n = raw.len();
    for i in 0..n
        invariant
            n == raw@.len(),
            n == fields.len(),
            fields == auth_fields(av@),
            value@ == auth_value(av@),
            forall|k: int| 0 <= k < n ==> #[trigger] raw@[k]@ == split_char(value@, ',')[k],
            raw@.len() == split_char(value@, ',').len(),
            cred_p@ == "Credential="@,
            sh_p@ == "SignedHeaders="@,
            sig_p@ == "Signature="@,
            credential@ == last_field(fields.take(i as int), "Credential="@),
            signed_headers@ == last_field(fields.take(i as int), "SignedHeaders="@),
            signature@ == last_field(fields.take(i as int), "Signature="@),
    {
        let part = trim_chars(raw[i].as_slice());
        assert(part@ == fields[i as int]);
        assert(fields.take(i + 1).drop_last() =~= fields.take(i as int));
        assert(fields.take(i + 1).last() == fields[i as int]);
        if starts_with(part.as_slice(), cred_p.as_slice()) {
            credential = slice_chars(part.as_slice(), cred_p.len(), part.len());
            assert(credential@ =~= part@.skip(cred_p@.len() as int));
        } else if starts_with(part.as_slice(), sh_p.as_slice()) {
            signed_headers = slice_chars(part.as_slice(), sh_p.len(), part.len());
            assert(signed_headers@ =~= part@.skip(sh_p@.len() as int));
        } else if starts_with(part.as_slice(), sig_p.as_slice()) {
            signature = slice_chars(part.as_slice(), sig_p.len(), part.len());
            assert(signature@ =~= part@.skip(sig_p@.len() as int));
        }
        proof {
            let f = fields[i as int];
            let c = "Credential="@;
            let h = "SignedHeaders="@;
            let s = "Signature="@;
            reveal_strlit("Credential=");
            reveal_strlit("SignedHeaders=");
            reveal_strlit("Signature=");
            if has_prefix(f, c) && has_prefix(f, h) {
                assert(f.take(c.len() as int)[0] == f[0]);
                assert(f.take(h.len() as int)[0] == f[0]);
            }
            if has_prefix(f, c) && has_prefix(f, s) {
                assert(f.take(c.len() as int)[0] == f[0]);
                assert(f.take(s.len() as int)[0] == f[0]);
            }
            if has_prefix(f, h) && has_prefix(f, s) {
                assert(f.take(h.len() as int)[4] == f[4]);
                assert(f.take(s.len() as int)[4] == f[4]);
            }
        }
    }
    assert(fields.take(n as int) =~= fields);
    assert(credential@ == credential_of(av@));
    let cred = split_on(credential.as_slice(), '/');
    if cred.len() != 5 {
        return Err(Error::SignatureMismatch);
    }
    let s3 = chars_of("s3");
    if !chars_eq(cred[3].as_slice(), s3.as_slice()) {
        return Err(Error::SignatureMismatch);
    }
    Ok(AuthorizationParts {
        access_key_id: string_of(cred[0].as_slice()),
        date: string_of(cred[1].as_slice()),
        region: string_of(cred[2].as_slice()),
        signed_headers: string_of(signed_headers.as_slice()),
        signature: string_of(signature.as_slice()),
    })
}

// ---------------------------------------------------------------------------
// The canonical query string
// ---------------------------------------------------------------------------

/// Whether `a` comes strictly before `b` in the order of `str` (byte order
/// of the UTF-8 encodings, which is code-point order).
pub open spec fn key_lt(a: Seq<char>, b: Seq<char>) -> bool
    decreases a.len(),
{
    if a.len() == 0 {
        b.len() > 0
    } else if b.len() == 0 {
        false
    } else if a[0] != b[0] {
        (a[0] as u32) < (b[0] as u32)
    } else {
        key_lt(a.drop_first(), b.drop_first())
    }
}

/// Whether `a` comes strictly before `b` (exec).
pub fn key_less(a: &[char], b: &[char]) -> (r: bool)
    ensures
        r == key_lt(a@, b@),
{
    let mut i: usize = 0;
    assert(a@.skip(0) =~= a@);
    assert(b@.skip(0) =~= b@);
    while i < a.len() && i < b.len() && a[i] == b[i]
        invariant
            i <= a@.len(),
            i <= b@.len(),
            a@.len() == a.len(),
            b@.len() == b.len(),
            key_lt(a@, b@) == key_lt(a@.skip(i as int), b@.skip(i as int)),
        decreases a.len() - i,
    {
        assert(a@.skip(i as int).drop_first() =~= a@.skip(i + 1));
        assert(b@.skip(i as int).drop_first() =~= b@.skip(i + 1));
        i = i + 1;
    }
    if i == a.len() {
        assert(a@.skip(i as int).len() == 0);
        i < b.len()
    } else if i == b.len() {
        false
    } else {
        assert(a@.skip(i as int)[0] == a@[i as int]);
        assert(b@.skip(i as int)[0] == b@[i as int]);
        (a[i] as u32) < (b[i] as u32)
    }
}

/// A query parameter: name and value.
pub type QueryPair = (Seq<char>, Seq<char>);

/// `x` inserted into `s` after every element whose name is not greater than
/// its own (insertion into a sorted list, keeping equal names in arrival order).
pub open spec fn insert_by_name(s: Seq<QueryPair>, x: QueryPair) -> Seq<QueryPair>
    decreases s.len(),
{
    if s.len() == 0 {
        seq![x]
    } else if key_lt(x.0, s[0].0) {
        seq![x] + s
    } else {
        seq![s[0]] + insert_by_name(s.drop_first(), x)
    }
}

/// The pairs sorted by name, stably (pairs with equal names keep their order),
/// as `slice::sort_by_key` orders them.
pub open spec fn sort_by_name(s: Seq<QueryPair>) -> Seq<QueryPair>
    decreases s.len(),
{
    if s.len() == 0 {
        Seq::<QueryPair>::empty()
    } else {
        insert_by_name(sort_by_name(s.drop_last()), s.last())
    }
}

proof fn lemma_insert_by_name_at(s: Seq<QueryPair>, x: QueryPair, j: int)
    requires
        0 <= j <= s.len(),
        forall|k: int| 0 <= k < j ==> !key_lt(x.0, #[trigger] s[k].0),
        j == s.len() || key_lt(x.0, s[j].0),
    ensures
        insert_by_name(s, x) == s.take(j) + seq![x] + s.skip(j),
    decreases j,
{
    if j == 0 {
        if s.len() == 0 {
            assert(s.take(0) + seq![x] + s.skip(0) =~= seq![x]);
        } else {
            assert(s.take(0) + seq![x] + s.skip(0) =~= seq![x] + s);
        }
    } else {
        assert(!key_lt(x.0, s[0].0));
        assert forall|k: int| 0 <= k < j - 1 implies !key_lt(x.0, #[trigger] s.drop_first()[k].0) by {
            assert(s.drop_first()[k] == s[k + 1]);
        }
        if j < s.len() {
            assert(s.drop_first()[j - 1] == s[j]);
        }
        lemma_insert_by_name_at(s.drop_first(), x, j - 1);
        assert(seq![s[0]] + (s.drop_first().take(j - 1) + seq![x] + s.drop_first().skip(j - 1))
            =~= s.take(j) + seq![x] + s.skip(j));
    }
}

/// A sequence of pairs with characters as vectors, seen as views.
pub open spec fn pairs_view(v: Seq<(Vec<char>, Vec<char>)>) -> Seq<QueryPair> {
    v.map_values(|p: (Vec<char>, Vec<char>)| (p.0@, p.1@))
}

/// Inserts `x` into the sorted vector `v` after the elements whose name is
/// not greater than its own.
fn insert_pair(v: &mut Vec<(Vec<char>, Vec<char>)>, x: (Vec<char>, Vec<char>))
    ensures
        pairs_view(final(v)@) == insert_by_name(pairs_view(old(v)@), (x.0@, x.1@)),
{
    let ghost xv = (x.0@, x.1@);
    let ghost sv = pairs_view(v@);
    let n = v.len();
    let mut j: usize = 0;
    while j < n && !key_less(x.0.as_slice(), v[j].0.as_slice())
        invariant
            n == v@.len(),
            j <= n,
            sv == pairs_view(v@),
            xv == (x.0@, x.1@),
            forall|k: int| 0 <= k < j ==> !key_lt(xv.0, #[trigger] sv[k].0),
        decreases n - j,
    {
        assert(sv[j as int] == (v@[j as int].0@, v@[j as int].1@));
        j = j + 1;
    }
    if j < n {
        assert(sv[j as int] == (v@[j as int].0@, v@[j as int].1@));
    }
    proof {
        lemma_insert_by_name_at(sv, xv, j as int);
    }
    v.insert(j, x);
    assert(pairs_view(v@) =~= sv.take(j as int) + seq![xv] + sv.skip(j as int));
}

/// The pieces of a `&`-separated list that are not empty.
pub open spec fn nonempty_pieces(s: Seq<Seq<char>>) -> Seq<Seq<char>>
    decreases s.len(),
{
    if s.len() == 0 {
        Seq::<Seq<char>>::empty()
    } else if s.last().len() == 0 {
        nonempty_pieces(s.drop_last())
    } else {
        nonempty_pieces(s.drop_last()).push(s.last())
    }
}

/// A `name=value` piece read as a pair; a piece without `=` has an empty value.
pub open spec fn query_pair(piece: Seq<char>) -> QueryPair {
    let (name, rest) = split_once_char(piece, '=');
    match rest {
        Some(v) => (name, v),
        None => (name, Seq::<char>::empty()),
    }
}

/// The parameters of a query string in the order they appear.
pub open spec fn query_pairs(query: Seq<char>) -> Seq<QueryPair> {
    nonempty_pieces(split_char(query, '&')).map_values(|p: Seq<char>| query_pair(p))
}

/// A pair written back as `name=value`.
pub open spec fn pair_text(p: QueryPair) -> Seq<char> {
    p.0 + "="@ + p.1
}

/// The canonical query string: the parameters sorted by name and joined with `&`.
pub open spec fn canonical_query(query: Seq<char>) -> Seq<char> {
    join_with(sort_by_name(query_pairs(query)).map_values(|p: QueryPair| pair_text(p)), "&"@)
}

/// Sorts the parameters of a query string by name and writes them back.
pub fn sort_query_string(query: &[char]) -> (r: Vec<char>)
    ensures
        r@ == canonical_query(query@),
{
    let pieces = split_on(query, '&');
    let ghost split = split_char(query@, '&');
    let n = pieces.len();
    let mut pairs: Vec<(Vec<char>, Vec<char>)> = Vec::new();
    let ghost mut kept: Seq<Seq<char>> = Seq::empty();
    assert(split.take(0) =~= Seq::<Seq<char>>::empty());
    for i in 0..n
        invariant
            n == pieces@.len(),
            n == split.len(),
            split == split_char(query@, '&'),
            forall|k: int| 0 <= k < n ==> #[trigger] pieces@[k]@ == split[k],
            kept == nonempty_pieces(split.take(i as int)),
            pairs_view(pairs@) == sort_by_name(kept.map_values(|p: Seq<char>| query_pair(p))),
    {
        assert(split.take(i + 1).drop_last() =~= split.take(i as int));
        assert(split.take(i + 1).last() == split[i as int]);
        if pieces[i].len() > 0 {
            let (name, rest) = split_once(pieces[i].as_slice(), '=');
            let value = match rest {
                Some(v) => v,
                None => Vec::new(),
            };
            let ghost old_kept = kept;
            proof {
                kept = kept.push(split[i as int]);
            }
            assert(kept.map_values(|p: Seq<char>| query_pair(p)).drop_last()
                =~= old_kept.map_values(|p: Seq<char>| query_pair(p)));
            assert(value@ == query_pair(split[i as int]).1);
            insert_pair(&mut pairs, (name, value));
        }
    }
    assert(split.take(n as int) =~= split);
    let ghost sorted = pairs_view(pairs@);
    let m = pairs.len();
    let mut texts: Vec<Vec<char>> = Vec::new();
    for i in 0..m
        invariant
            m == pairs@.len(),
            sorted == pairs_view(pairs@),
            texts@.len() == i,
            forall|k: int| 0 <= k < i ==> #[trigger] texts@[k]@ == pair_text(sorted[k]),
    {
        let mut t: Vec<char> = Vec::new();
        t.extend_from_slice(pairs[i].0.as_slice());
        t.push('=');
        t.extend_from_slice(pairs[i].1.as_slice());
        proof {
            reveal_strlit("=");
        }
        assert(t@ =~= pair_text(sorted[i as int]));
        texts.push(t);
    }
    let amp = chars_of("&");
    let r = join_pieces(texts.as_slice(), amp.as_slice());
    assert(texts@.map_values(|p: Vec<char>| p@) =~= sorted.map_values(|p: QueryPair| pair_text(p)));
    r
}

// ---------------------------------------------------------------------------
// Canonical headers, canonical request, signature
// ---------------------------------------------------------------------------

/// The canonical headers for the signed header names read so far: for each
/// name, lower-cased, that the request carries, `name:value\n` with the value trimmed.
pub open spec fn canonical_headers_of(hs: Seq<(Seq<char>, Seq<char>)>, names: Seq<Seq<char>>) -> Seq<char>
    decreases names.len(),
{
    if names.len() == 0 {
        Seq::<char>::empty()
    } else {
        let prev = canonical_headers_of(hs, names.drop_last());
        let key = lower_case(names.last());
        match header_lookup(hs, key) {
            Some(v) => prev + key + ":"@ + trim_ws(v) + "\n"@,
            None => prev,
        }
    }
}

/// The canonical headers for a `;`-separated list of signed header names.
pub open spec fn canonical_headers(hs: Seq<(Seq<char>, Seq<char>)>, signed_headers: Seq<char>) -> Seq<char> {
    canonical_headers_of(hs, split_char(signed_headers, ';'))
}

/// Writes the canonical headers for the signed header names.
pub fn create_canonical_headers(headers: &[(String, String)], signed_headers: &str) -> (r: Vec<char>)
    ensures
        r@ == canonical_headers(pair_views(headers@), signed_headers@),
{
    let sv = chars_of(signed_headers);
    let names = split_on(sv.as_slice(), ';');
    let ghost split = split_char(signed_headers@, ';');
    let n = names.len();
    let mut out: Vec<char> = Vec::new();
    let colon = chars_of(":");
    let nl = chars_of("\n");
    for i in 0..n
        invariant
            n == names@.len(),
            n == split.len(),
            split == split_char(signed_headers@, ';'),
            forall|k: int| 0 <= k < n ==> #[trigger] names@[k]@ == split[k],
            colon@ == ":"@,
            nl@ == "\n"@,
            out@ == canonical_headers_of(pair_views(headers@), split.take(i as int)),
    {
        assert(split.take(i + 1).drop_last() =~= split.take(i as int));
        assert(split.take(i + 1).last() == split[i as int]);
        let name = string_of(names[i].as_slice());
        let key = to_lower(name.as_str());
        match find_header(headers, key.as_str()) {
            Some(v) => {
                let kv = chars_of(key.as_str());
                let vv = chars_of(v.as_str());
                let tv = trim_chars(vv.as_slice());
                out.extend_from_slice(kv.as_slice());
                out.extend_from_slice(colon.as_slice());
                out.extend_from_slice(tv.as_slice());
                out.extend_from_slice(nl.as_slice());
            },
            None => {},
        }
    }
    assert(split.take(n as int) =~= split);
    out
}

/// The payload hash: the `x-amz-content-sha256` header when present,
/// otherwise the hex SHA-256 of the body.
pub open spec fn payload_hash(hs: Seq<(Seq<char>, Seq<char>)>, body: Seq<u8>) -> Seq<char> {
    match header_lookup(hs, "x-amz-content-sha256"@) {
        Some(h) => h,
        None => hex_lower(sha256_digest(body)),
    }
}

/// The path of the request URI, before any `?`.
pub open spec fn canonical_uri(uri: Seq<char>) -> Seq<char> {
    split_once_char(uri, '?').0
}

/// The canonical query string of the request URI (empty without a `?`).
pub open spec fn canonical_query_of_uri(uri: Seq<char>) -> Seq<char> {
    match split_once_char(uri, '?').1 {
        Some(q) => canonical_query(q),
        None => Seq::<char>::empty(),
    }
}

/// The canonical request: method, path, canonical query, canonical headers,
/// signed header names and payload hash, each followed by a newline but the last.
pub open spec fn canonical_request(
    method: Seq<char>,
    uri: Seq<char>,
    hs: Seq<(Seq<char>, Seq<char>)>,
    signed_headers: Seq<char>,
    body: Seq<u8>,
) -> Seq<char> {
    method + "\n"@ + canonical_uri(uri) + "\n"@ + canonical_query_of_uri(uri) + "\n"@
        + canonical_headers(hs, signed_headers) + "\n"@ + signed_headers + "\n"@ + payload_hash(hs, body)
}

/// The string to sign for a request time, credential date and region.
pub open spec fn string_to_sign(datetime: Seq<char>, date: Seq<char>, region: Seq<char>, creq: Seq<char>) -> Seq<char> {
    "AWS4-HMAC-SHA256"@ + "\n"@ + datetime + "\n"@ + date + "/"@ + region + "/"@ + "s3"@ + "/aws4_request"@
        + "\n"@ + hex_lower(sha256_digest(encode_utf8(creq)))
}

/// The signing key derived from the secret key, date and region.
pub open spec fn signing_key(secret: Seq<char>, date: Seq<char>, region: Seq<char>) -> Seq<u8> {
    let k_date = hmac_sha256_tag(encode_utf8("AWS4"@ + secret), encode_utf8(date));
    let k_region = hmac_sha256_tag(k_date, encode_utf8(region));
    let k_service = hmac_sha256_tag(k_region, encode_utf8("s3"@));
    hmac_sha256_tag(k_service, encode_utf8("aws4_request"@))
}

/// The signature a correctly signed request carries.
pub open spec fn expected_signature(
    method: Seq<char>,
    uri: Seq<char>,
    hs: Seq<(Seq<char>, Seq<char>)>,
    body: Seq<u8>,
    p: AuthorizationParts,
    secret: Seq<char>,
    datetime: Seq<char>,
) -> Seq<char> {
    let creq = canonical_request(method, uri, hs, p.signed_headers@, body);
    let sts = string_to_sign(datetime, p.date@, p.region@, creq);
    hex_lower(hmac_sha256_tag(signing_key(secret, p.date@, p.region@), encode_utf8(sts)))
}

fn push_lit(out: &mut Vec<char>, t: &str)
    ensures
        final(out)@ == old(out)@ + t@,
{
    let v = chars_of(t);
    out.extend_from_slice(v.as_slice());
}

/// Writes the canonical request.
pub fn build_canonical_request(
    method: &str,
    uri: &str,
    headers: &[(String, String)],
    signed_headers: &str,
    body: &[u8],
) -> (r: Vec<char>)
    ensures
        r@ == canonical_request(method@, uri@, pair_views(headers@), signed_headers@, body@),
{
    let uv = chars_of(uri);
    let (path, query) = split_once(uv.as_slice(), '?');
    let cq = match query {
        Some(q) => sort_query_string(q.as_slice()),
        None => Vec::new(),
    };
    let ch = create_canonical_headers(headers, signed_headers);
    let ph: Vec<char> = match find_header(headers, "x-amz-content-sha256") {
        Some(h) => chars_of(h.as_str()),
        None => {
            let d = sha256(body);
            hex_encode(d.as_slice())
        },
    };
    let mut out: Vec<char> = Vec::new();
    push_lit(&mut out, method);
    push_lit(&mut out, "\n");
    out.extend_from_slice(path.as_slice());
    push_lit(&mut out, "\n");
    out.extend_from_slice(cq.as_slice());
    push_lit(&mut out, "\n");
    out.extend_from_slice(ch.as_slice());
    push_lit(&mut out, "\n");
    push_lit(&mut out, signed_headers);
    push_lit(&mut out, "\n");
    out.extend_from_slice(ph.as_slice());
    out
}

/// Derives the signing key.
pub fn derive_signing_key(secret: &str, date: &str, region: &str) -> (r: Vec<u8>)
    ensures
        r@ == signing_key(secret@, date@, region@),
{
    let mut k = String::new();
    push_str(&mut k, "AWS4");
    push_str(&mut k, secret);
    let kb = utf8_bytes(k.as_str());
    let db = utf8_bytes(date);
    let k_date = hmac_sha256(kb.as_slice(), db.as_slice());
    let rb = utf8_bytes(region);
    let k_region = hmac_sha256(k_date.as_slice(), rb.as_slice());
    let sb = utf8_bytes("s3");
    let k_service = hmac_sha256(k_region.as_slice(), sb.as_slice());
    let ab = utf8_bytes("aws4_request");
    hmac_sha256(k_service.as_slice(), ab.as_slice())
}

/// Computes the signature a request should carry, given the request time.
pub fn calculate_signature(
    method: &str,
    uri: &str,
    headers: &[(String, String)],
    body: &[u8],
    parts: &AuthorizationParts,
    secret: &str,
    datetime: &str,
) -> (r: Vec<char>)
    ensures
        r@ == expected_signature(method@, uri@, pair_views(headers@), body@, *parts, secret@, datetime@),
{
    let creq = build_canonical_request(method, uri, headers, parts.signed_headers.as_str(), body);
    let creq_s = string_of(creq.as_slice());
    let creq_b = utf8_bytes(creq_s.as_str());
    let hashed = hex_encode(sha256(creq_b.as_slice()).as_slice());
    let mut sts = String::new();
    push_str(&mut sts, "AWS4-HMAC-SHA256");
    push_str(&mut sts, "\n");
    push_str(&mut sts, datetime);
    push_str(&mut sts, "\n");
    push_str(&mut sts, parts.date.as_str());
    push_str(&mut sts, "/");
    push_str(&mut sts, parts.region.as_str());
    push_str(&mut sts, "/");
    push_str(&mut sts, "s3");
    push_str(&mut sts, "/aws4_request");
    push_str(&mut sts, "\n");
    push_chars(&mut sts, hashed.as_slice());
    let key = derive_signing_key(secret, parts.date.as_str(), parts.region.as_str());
    let sts_b = utf8_bytes(sts.as_str());
    let tag = hmac_sha256(key.as_slice(), sts_b.as_slice());
    hex_encode(tag.as_slice())
}

/// Checks the signature of a request whose `Authorization` header gave
/// `parts`, with the secret key of the access key it names.
///
/// Fails with `MissingHeader("x-amz-date")` when the request carries no
/// `x-amz-date` header, and with `SignatureMismatch` when the signature it
/// carries is not the one computed.
pub fn verify_signature(
    method: &str,
    uri: &str,
    headers: &[(String, String)],
    body: &[u8],
    parts: &AuthorizationParts,
    secret: &str,
) -> (r: Result<(), Error>)
    ensures
        match header_lookup(pair_views(headers@), "x-amz-date"@) {
            None => r matches Err(Error::MissingHeader(h)) && h@ == "x-amz-date"@,
            Some(dt) => {
                &&& r is Ok <==> expected_signature(method@, uri@, pair_views(headers@), body@, *parts, secret@, dt)
                    == parts.signature@
                &&& r is Err ==> r matches Err(Error::SignatureMismatch)
            },
        },
{
    let datetime = match find_header(headers, "x-amz-date") {
        Some(d) => d,
        None => {
            let mut h = String::new();
            push_str(&mut h, "x-amz-date");
            return Err(Error::MissingHeader(h));
        },
    };
    let expected = calculate_signature(method, uri, headers, body, parts, secret, datetime.as_str());
    let given = chars_of(parts.signature.as_str());
    if chars_eq(expected.as_slice(), given.as_slice()) {
        Ok(())
    } else {
        Err(Error::SignatureMismatch)
    }
}

// ---------------------------------------------------------------------------
// The order of parameter names
// ---------------------------------------------------------------------------

proof fn lemma_key_lt_irreflexive(a: Seq<char>)
    ensures
        !key_lt(a, a),
    decreases a.len(),
{
    if a.len() > 0 {
        lemma_key_lt_irreflexive(a.drop_first());
    }
}

proof fn lemma_key_lt_total(a: Seq<char>, b: Seq<char>)
    ensures
        a != b ==> key_lt(a, b) || key_lt(b, a),
        !(key_lt(a, b) && key_lt(b, a)),
    decreases a.len(),
{
    if a.len() > 0 && b.len() > 0 {
        lemma_key_lt_total(a.drop_first(), b.drop_first());
        if a[0] == b[0] && a != b {
            assert(a.drop_first() != b.drop_first()) by {
                if a.drop_first() == b.drop_first() {
                    assert(a =~= seq![a[0]] + a.drop_first());
                    assert(b =~= seq![b[0]] + b.drop_first());
                }
            }
        }
        if a[0] != b[0] {
            let ca = a[0];
            let cb = b[0];
            vstd::utf8::char_u32_cast(ca, ca as u32);
            vstd::utf8::char_u32_cast(cb, cb as u32);
            assert((ca as u32) != (cb as u32));
        }
    } else if a.len() == 0 && b.len() == 0 {
        assert(a =~= b);
    }
}

proof fn lemma_key_lt_transitive(a: Seq<char>, b: Seq<char>, c: Seq<char>)
    requires
        key_lt(a, b),
        key_lt(b, c),
    ensures
        key_lt(a, c),
    decreases a.len(),
{
    if a.len() > 0 && b.len() > 0 && c.len() > 0 {
        if a[0] == b[0] && b[0] == c[0] {
            lemma_key_lt_transitive(a.drop_first(), b.drop_first(), c.drop_first());
        }
    }
}

// ---------------------------------------------------------------------------
// Sorting parameters with distinct names
// ---------------------------------------------------------------------------

/// Whether the names of the pairs increase strictly along `s`.
pub open spec fn strictly_sorted(s: Seq<QueryPair>) -> bool {
    forall|i: int, j: int| 0 <= i < j < s.len() ==> key_lt(s[i].0, s[j].0)
}

/// Whether no two pairs of `s` have the same name.
pub open spec fn distinct_names(s: Seq<QueryPair>) -> bool {
    forall|i: int, j: int| 0 <= i < j < s.len() ==> s[i].0 != s[j].0
}

proof fn lemma_insert_sorted(s: Seq<QueryPair>, x: QueryPair)
    requires
        strictly_sorted(s),
        forall|k: int| 0 <= k < s.len() ==> (#[trigger] s[k]).0 != x.0,
    ensures
        strictly_sorted(insert_by_name(s, x)),
        insert_by_name(s, x).len() == s.len() + 1,
        forall|e: QueryPair| #[trigger] insert_by_name(s, x).contains(e) <==> (s.contains(e) || e == x),
    decreases s.len(),
{
    let r = insert_by_name(s, x);
    if s.len() == 0 {
        assert(r =~= seq![x]);
        assert forall|e: QueryPair| r.contains(e) <==> (s.contains(e) || e == x) by {
            if r.contains(e) {
                assert(r[0] == x);
            }
            if e == x {
                assert(r[0] == e);
            }
        }
    } else if key_lt(x.0, s[0].0) {
        assert(r =~= seq![x] + s);
        assert forall|i: int, j: int| 0 <= i < j < r.len() implies key_lt(r[i].0, r[j].0) by {
            if i == 0 {
                if j > 1 {
                    lemma_key_lt_transitive(x.0, s[0].0, s[j - 1].0);
                }
            } else {
                assert(r[i] == s[i - 1] && r[j] == s[j - 1]);
            }
        }
        assert forall|e: QueryPair| r.contains(e) <==> (s.contains(e) || e == x) by {
            if r.contains(e) {
                let i = choose|i: int| 0 <= i < r.len() && r[i] == e;
                if i > 0 {
                    assert(s[i - 1] == e);
                }
            }
            if s.contains(e) {
                let i = choose|i: int| 0 <= i < s.len() && s[i] == e;
                assert(r[i + 1] == e);
            }
            if e == x {
                assert(r[0] == e);
            }
        }
    } else {
        let t = s.drop_first();
        assert forall|i: int, j: int| 0 <= i < j < t.len() implies key_lt(t[i].0, t[j].0) by {
            assert(t[i] == s[i + 1] && t[j] == s[j + 1]);
        }
        assert forall|k: int| 0 <= k < t.len() implies (#[trigger] t[k]).0 != x.0 by {
            assert(t[k] == s[k + 1]);
        }
        lemma_insert_sorted(t, x);
        let rt = insert_by_name(t, x);
        assert(r =~= seq![s[0]] + rt);
        lemma_key_lt_total(x.0, s[0].0);
        assert(key_lt(s[0].0, x.0));
        assert forall|i: int, j: int| 0 <= i < j < r.len() implies key_lt(r[i].0, r[j].0) by {
            if i == 0 {
                assert(r[j] == rt[j - 1]);
                assert(rt.contains(rt[j - 1]));
                if rt[j - 1] != x {
                    assert(t.contains(rt[j - 1]));
                    let k = choose|k: int| 0 <= k < t.len() && t[k] == rt[j - 1];
                    assert(s[k + 1] == rt[j - 1]);
                }
            } else {
                assert(r[i] == rt[i - 1] && r[j] == rt[j - 1]);
            }
        }
        assert forall|e: QueryPair| r.contains(e) <==> (s.contains(e) || e == x) by {
            if r.contains(e) {
                let i = choose|i: int| 0 <= i < r.len() && r[i] == e;
                if i > 0 {
                    assert(rt[i - 1] == e);
                    assert(rt.contains(e));
                    assert(t.contains(e) || e == x);
                    if t.contains(e) {
                        let k = choose|k: int| 0 <= k < t.len() && t[k] == e;
                        assert(s[k + 1] == e);
                        assert(s.contains(e));
                    }
                } else {
                    assert(s[0] == e);
                    assert(s.contains(e));
                }
            }
            if s.contains(e) {
                let i = choose|i: int| 0 <= i < s.len() && s[i] == e;
                if i > 0 {
                    assert(t[i - 1] == e);
                    assert(t.contains(e));
                    assert(rt.contains(e));
                    let k = choose|k: int| 0 <= k < rt.len() && rt[k] == e;
                    assert(r[k + 1] == e);
                    assert(r.contains(e));
                } else {
                    assert(r[0] == e);
                    assert(r.contains(e));
                }
            }
            if e == x {
                assert(rt.contains(e));
                let k = choose|k: int| 0 <= k < rt.len() && rt[k] == e;
                assert(r[k + 1] == e);
                assert(r.contains(e));
            }
        }
    }
}

proof fn lemma_sort_sorted(s: Seq<QueryPair>)
    requires
        distinct_names(s),
    ensures
        strictly_sorted(sort_by_name(s)),
        sort_by_name(s).len() == s.len(),
        forall|e: QueryPair| #[trigger] sort_by_name(s).contains(e) <==> s.contains(e),
    decreases s.len(),
{
    if s.len() > 0 {
        let init = s.drop_last();
        assert forall|i: int, j: int| 0 <= i < j < init.len() implies init[i].0 != init[j].0 by {
            assert(init[i] == s[i] && init[j] == s[j]);
        }
        lemma_sort_sorted(init);
        let si = sort_by_name(init);
        assert forall|k: int| 0 <= k < si.len() implies (#[trigger] si[k]).0 != s.last().0 by {
            assert(si.contains(si[k]));
            assert(init.contains(si[k]));
            let m = choose|m: int| 0 <= m < init.len() && init[m] == si[k];
            assert(s[m] == si[k]);
        }
        lemma_insert_sorted(si, s.last());
        assert forall|e: QueryPair| #[trigger] sort_by_name(s).contains(e) <==> s.contains(e) by {
            if s.contains(e) {
                let m = choose|m: int| 0 <= m < s.len() && s[m] == e;
                if m < s.len() - 1 {
                    assert(init[m] == e);
                    assert(init.contains(e));
                }
            }
            if init.contains(e) {
                let m = choose|m: int| 0 <= m < init.len() && init[m] == e;
                assert(s[m] == e);
            }
            if e == s.last() {
                assert(s[s.len() - 1] == e);
            }
        }
    }
}

proof fn lemma_sorted_unique(a: Seq<QueryPair>, b: Seq<QueryPair>)
    requires
        strictly_sorted(a),
        strictly_sorted(b),
        forall|e: QueryPair| a.contains(e) <==> b.contains(e),
    ensures
        a == b,
    decreases a.len(),
{
    if a.len() == 0 {
        if b.len() > 0 {
            assert(b.contains(b[0]));
        }
        assert(a =~= b);
    } else {
        assert(a.contains(a[0]));
        let j = choose|j: int| 0 <= j < b.len() && b[j] == a[0];
        assert(b.contains(b[0]));
        let i = choose|i: int| 0 <= i < a.len() && a[i] == b[0];
        if j > 0 && i > 0 {
            assert(key_lt(b[0].0, b[j].0));
            assert(key_lt(a[0].0, a[i].0));
            lemma_key_lt_total(a[0].0, b[0].0);
            assert(false);
        }
        assert(a[0] == b[0]);
        let a1 = a.drop_first();
        let b1 = b.drop_first();
        assert forall|x: int, y: int| 0 <= x < y < a1.len() implies key_lt(a1[x].0, a1[y].0) by {
            assert(a1[x] == a[x + 1] && a1[y] == a[y + 1]);
        }
        assert forall|x: int, y: int| 0 <= x < y < b1.len() implies key_lt(b1[x].0, b1[y].0) by {
            assert(b1[x] == b[x + 1] && b1[y] == b[y + 1]);
        }
        assert forall|e: QueryPair| a1.contains(e) <==> b1.contains(e) by {
            if a1.contains(e) {
                let k = choose|k: int| 0 <= k < a1.len() && a1[k] == e;
                assert(a[k + 1] == e);
                assert(a.contains(e));
                assert(b.contains(e));
                let m = choose|m: int| 0 <= m < b.len() && b[m] == e;
                assert(key_lt(a[0].0, a[k + 1].0));
                lemma_key_lt_irreflexive(a[0].0);
                assert(m != 0);
                assert(b1[m - 1] == e);
            }
            if b1.contains(e) {
                let k = choose|k: int| 0 <= k < b1.len() && b1[k] == e;
                assert(b[k + 1] == e);
                assert(b.contains(e));
                assert(a.contains(e));
                let m = choose|m: int| 0 <= m < a.len() && a[m] == e;
                assert(key_lt(b[0].0, b[k + 1].0));
                lemma_key_lt_irreflexive(b[0].0);
                assert(m != 0);
                assert(a1[m - 1] == e);
            }
        }
        lemma_sorted_unique(a1, b1);
        assert(a =~= seq![a[0]] + a1);
        assert(b =~= seq![b[0]] + b1);
    }
}

/// Sorting by name puts two orders of the same distinctly named pairs in
/// the same order.
pub proof fn lemma_sort_forgets_order(a: Seq<QueryPair>, b: Seq<QueryPair>)
    requires
        distinct_names(a),
        distinct_names(b),
        forall|e: QueryPair| a.contains(e) <==> b.contains(e),
    ensures
        sort_by_name(a) == sort_by_name(b),
{
    lemma_sort_sorted(a);
    lemma_sort_sorted(b);
    lemma_sorted_unique(sort_by_name(a), sort_by_name(b));
}

// ---------------------------------------------------------------------------
// The canonical query does not depend on the order of the parameters
// ---------------------------------------------------------------------------

/// Whether a pair can be written in a query as `name=value`: no `=` or `&`
/// in its name, no `&` in its value.
pub open spec fn plain_query_pair(p: QueryPair) -> bool {
    &&& forall|i: int| 0 <= i < p.0.len() ==> p.0[i] != '=' && p.0[i] != '&'
    &&& forall|i: int| 0 <= i < p.1.len() ==> p.1[i] != '&'
}

/// Pairs written as a query string: `name=value` pieces joined with `&`.
pub open spec fn query_text(ps: Seq<QueryPair>) -> Seq<char> {
    join_with(ps.map_values(|p: QueryPair| pair_text(p)), "&"@)
}

proof fn lemma_nonempty_pieces_all(segs: Seq<Seq<char>>)
    requires
        forall|i: int| 0 <= i < segs.len() ==> (#[trigger] segs[i]).len() > 0,
    ensures
        nonempty_pieces(segs) == segs,
    decreases segs.len(),
{
    if segs.len() > 0 {
        lemma_nonempty_pieces_all(segs.drop_last());
        assert(segs.drop_last().push(segs.last()) =~= segs);
    }
}

proof fn lemma_pair_text_reads_back(p: QueryPair)
    requires
        plain_query_pair(p),
    ensures
        query_pair(pair_text(p)) == p,
        pair_text(p).len() > 0,
        forall|k: int| 0 <= k < pair_text(p).len() ==> #[trigger] pair_text(p)[k] != '&',
{
    reveal_strlit("=");
    let t = pair_text(p);
    assert(t =~= p.0 + seq!['='] + p.1);
    assert forall|k: int| 0 <= k < p.0.len() implies t[k] != '=' by {
        assert(t[k] == p.0[k]);
    }
    crate::text::lemma_find_char(t, '=', p.0.len() as int);
    assert(t.take(p.0.len() as int) =~= p.0);
    assert(t.skip(p.0.len() as int + 1) =~= p.1);
    assert forall|k: int| 0 <= k < t.len() implies #[trigger] t[k] != '&' by {
        if k < p.0.len() {
            assert(t[k] == p.0[k]);
        } else if k > p.0.len() {
            assert(t[k] == p.1[k - p.0.len() - 1]);
        }
    }
}

/// A query string written from plain pairs reads back as those pairs.
pub proof fn lemma_query_text_reads_back(ps: Seq<QueryPair>)
    requires
        forall|i: int| 0 <= i < ps.len() ==> plain_query_pair(#[trigger] ps[i]),
    ensures
        query_pairs(query_text(ps)) == ps,
{
    let texts = ps.map_values(|p: QueryPair| pair_text(p));
    reveal_strlit("&");
    if ps.len() == 0 {
        assert(texts =~= Seq::<Seq<char>>::empty());
        let e = Seq::<char>::empty();
        assert(query_text(ps) == e);
        assert(split_char(e, '&') =~= seq![e]);
        assert(seq![e].drop_last() =~= Seq::<Seq<char>>::empty());
        assert(seq![e].last().len() == 0);
        assert(nonempty_pieces(Seq::<Seq<char>>::empty()) =~= Seq::<Seq<char>>::empty());
        assert(nonempty_pieces(seq![e]) =~= Seq::<Seq<char>>::empty());
        assert(query_pairs(query_text(ps)) =~= ps);
    } else {
        assert forall|i: int| 0 <= i < ps.len() implies query_pair(#[trigger] texts[i]) == ps[i] && texts[i].len() > 0
            && forall|k: int| 0 <= k < texts[i].len() ==> texts[i][k] != '&' by {
            lemma_pair_text_reads_back(ps[i]);
        }
        assert forall|i: int, k: int| 0 <= i < texts.len() && 0 <= k < texts[i].len() implies #[trigger] texts[i][k] != '&' by {
            lemma_pair_text_reads_back(ps[i]);
        }
        assert("&"@ =~= seq!['&']);
        crate::text::lemma_split_join(texts, '&', "&"@);
        lemma_nonempty_pieces_all(texts);
        assert(texts.map_values(|p: Seq<char>| query_pair(p)) =~= ps);
    }
}

/// The canonical query of a request does not depend on the order its
/// parameters are written in: it is the parameters sorted by name, joined
/// with `&`; two request URIs with the same path and the same distinctly
/// named parameters in another order give the same canonical request, and
/// so the same expected signature.
pub proof fn law_canonical_request_ignores_parameter_order(
    method: Seq<char>,
    path: Seq<char>,
    ps1: Seq<QueryPair>,
    ps2: Seq<QueryPair>,
    hs: Seq<(Seq<char>, Seq<char>)>,
    body: Seq<u8>,
    p: AuthorizationParts,
    secret: Seq<char>,
    datetime: Seq<char>,
)
    requires
        forall|i: int| 0 <= i < path.len() ==> path[i] != '?',
        forall|i: int| 0 <= i < ps1.len() ==> plain_query_pair(#[trigger] ps1[i]),
        forall|i: int| 0 <= i < ps2.len() ==> plain_query_pair(#[trigger] ps2[i]),
        distinct_names(ps1),
        distinct_names(ps2),
        forall|e: QueryPair| ps1.contains(e) <==> ps2.contains(e),
    ensures
        canonical_uri(path + "?"@ + query_text(ps1)) == path,
        canonical_query_of_uri(path + "?"@ + query_text(ps1)) == query_text(sort_by_name(ps1)),
        canonical_request(method, path + "?"@ + query_text(ps1), hs, p.signed_headers@, body)
            == canonical_request(method, path + "?"@ + query_text(ps2), hs, p.signed_headers@, body),
        expected_signature(method, path + "?"@ + query_text(ps1), hs, body, p, secret, datetime)
            == expected_signature(method, path + "?"@ + query_text(ps2), hs, body, p, secret, datetime),
{
    reveal_strlit("?");
    assert forall|q: Seq<char>| #![trigger (path + "?"@ + q)]
        split_once_char(path + "?"@ + q, '?') == (path, Some(q)) by {
        let u = path + "?"@ + q;
        assert forall|k: int| 0 <= k < path.len() implies u[k] != '?' by {
            assert(u[k] == path[k]);
        }
        crate::text::lemma_find_char(u, '?', path.len() as int);
        assert(u.take(path.len() as int) =~= path);
        assert(u.skip(path.len() as int + 1) =~= q);
    }
    let q1 = query_text(ps1);
    let q2 = query_text(ps2);
    assert(split_once_char(path + "?"@ + q1, '?') == (path, Some(q1)));
    assert(split_once_char(path + "?"@ + q2, '?') == (path, Some(q2)));
    lemma_query_text_reads_back(ps1);
    lemma_query_text_reads_back(ps2);
    lemma_sort_forgets_order(ps1, ps2);
    assert(canonical_query(q1) == canonical_query(q2));
}

} // verus!
