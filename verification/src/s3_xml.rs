//! The XML bodies of the S3 answers, the keys of a batch-delete request,
//! and bucket name validation.
use vstd::prelude::*;
use vstd::string::*;
use crate::multipart::UploadPart;
use crate::text::{
    chars_of, contains_sub, decimal, has_prefix, occurs_at, occurs_at_exec,
    push_chars, push_decimal, push_str, slice_chars, string_of,
};

verus! {

// ---------------------------------------------------------------------------
// Escaping
// ---------------------------------------------------------------------------

/// The XML escape of one character.
pub open spec fn escape_char(c: char) -> Seq<char> {
    if c == '&' {
        "&amp;"@
    } else if c == '<' {
        "&lt;"@
    } else if c == '>' {
        "&gt;"@
    } else if c == '"' {
        "&quot;"@
    } else if c == '\'' {
        "&apos;"@
    } else {
        seq![c]
    }
}

/// The XML escape of a string: `&`, `<`, `>`, `"` and `'` written as entities.
pub open spec fn escape_xml_spec(s: Seq<char>) -> Seq<char>
    decreases s.len(),
{
    if s.len() == 0 {
        Seq::<char>::empty()
    } else {
        escape_xml_spec(s.drop_last()) + escape_char(s.last())
    }
}

/// Escapes `&`, `<`, `>`, `"` and `'` for XML text.
pub fn escape_xml(s: &str) -> (r: String)
    ensures
        r@ == escape_xml_spec(s@),
{
    let v = chars_of(s);
    let n = v.len();
    let mut out = String::new();
    for i in 0..n
        invariant
            n == v@.len(),
            v@ == s@,
            out@ == escape_xml_spec(v@.take(i as int)),
    {
        let c = v[i];
        if c == '&' {
            push_str(&mut out, "&amp;");
        } else if c == '<' {
            push_str(&mut out, "&lt;");
        } else if c == '>' {
            push_str(&mut out, "&gt;");
        } else if c == '"' {
            push_str(&mut out, "&quot;");
        } else if c == '\'' {
            push_str(&mut out, "&apos;");
        } else {
            crate::text::push_char(&mut out, c);
        }
        assert(v@.take(i + 1).drop_last() =~= v@.take(i as int));
        assert(v@.take(i + 1).last() == c);
    }
    assert(v@.take(n as int) =~= v@);
    out
}

/// The characters that open or close markup or an attribute value.
pub open spec fn is_markup_char(c: char) -> bool {
    c == '<' || c == '>' || c == '"' || c == '\''
}

/// Escaped text holds no `<`, `>`, `"` or `'`: wherever it is put, it
/// cannot open or close markup or an attribute value.
pub proof fn law_escaped_text_has_no_markup(s: Seq<char>)
    ensures
        forall|i: int| 0 <= i < escape_xml_spec(s).len() ==> !is_markup_char(#[trigger] escape_xml_spec(s)[i]),
    decreases s.len(),
{
    if s.len() > 0 {
        law_escaped_text_has_no_markup(s.drop_last());
        reveal_strlit("&amp;");
        reveal_strlit("&lt;");
        reveal_strlit("&gt;");
        reveal_strlit("&quot;");
        reveal_strlit("&apos;");
        let a = escape_xml_spec(s.drop_last());
        let b = escape_char(s.last());
        assert(escape_xml_spec(s) == a + b);
        assert forall|i: int| 0 <= i < b.len() implies !is_markup_char(#[trigger] b[i]) by {
        }
        assert forall|i: int| 0 <= i < (a + b).len() implies !is_markup_char(#[trigger] (a + b)[i]) by {
            if i < a.len() {
                assert((a + b)[i] == a[i]);
            } else {
                assert((a + b)[i] == b[i - a.len()]);
            }
        }
    }
}

// ---------------------------------------------------------------------------
// Bucket names
// ---------------------------------------------------------------------------

/// Whether a character may stand at the start or end of a bucket name: a
/// lower-case ASCII letter or a digit.
pub open spec fn bucket_name_edge(c: char) -> bool {
    ('a' <= c && c <= 'z') || ('0' <= c && c <= '9')
}

/// Whether a character may stand in a bucket name: a lower-case ASCII
/// letter, a digit or a hyphen.
pub open spec fn bucket_name_char(c: char) -> bool {
    bucket_name_edge(c) || c == '-'
}

/// Whether a bucket name is accepted: 3 to 63 characters long, made only of
/// lower-case letters, digits and hyphens, and starting and ending with a
/// letter or a digit.
pub open spec fn valid_bucket_name(name: Seq<char>) -> bool {
    &&& 3 <= name.len() <= 63
    &&& bucket_name_edge(name[0])
    &&& bucket_name_edge(name.last())
    &&& forall|i: int| 0 <= i < name.len() ==> bucket_name_char(#[trigger] name[i])
}

/// Whether a bucket name is accepted.
pub fn is_valid_bucket_name(name: &str) -> (r: bool)
    ensures
        r == valid_bucket_name(name@),
{
    let v = chars_of(name);
    let n = v.len();
    if n < 3 || n > 63 {
        return false;
    }
    let first = v[0];
    let last = v[n - 1];
    if !(('a' <= first && first <= 'z') || ('0' <= first && first <= '9')) {
        return false;
    }
    if !(('a' <= last && last <= 'z') || ('0' <= last && last <= '9')) {
        return false;
    }
    for i in 0..n
        invariant
            n == v@.len(),
            v@ == name@,
            forall|k: int| 0 <= k < i ==> bucket_name_char(#[trigger] v@[k]),
    {
        let c = v[i];
        if !(('a' <= c && c <= 'z') || ('0' <= c && c <= '9') || c == '-') {
            return false;
        }
    }
    true
}

// ---------------------------------------------------------------------------
// Bucket answers
// ---------------------------------------------------------------------------

/// One bucket of the bucket list: its name (escaped) and creation date.
pub open spec fn bucket_entry_xml(name: Seq<char>, created: Seq<char>) -> Seq<char> {
    "<Bucket>"@ + "<Name>"@ + escape_xml_spec(name) + "</Name>"@ + "<CreationDate>"@ + created
        + "</CreationDate>"@ + "</Bucket>"@
}

/// The buckets of the bucket list, in order.
pub open spec fn bucket_entries_xml(bs: Seq<(Seq<char>, Seq<char>)>) -> Seq<char>
    decreases bs.len(),
{
    if bs.len() == 0 {
        Seq::<char>::empty()
    } else {
        bucket_entries_xml(bs.drop_last()) + bucket_entry_xml(bs.last().0, bs.last().1)
    }
}

/// The ListAllMyBuckets answer.
pub open spec fn list_buckets_xml_spec(bs: Seq<(Seq<char>, Seq<char>)>) -> Seq<char> {
    "<?xml version=\"1.0\" encoding=\"UTF-8\"?>"@ + "<ListAllMyBucketsResult>"@
        + "<Owner><ID>owner-id</ID><DisplayName>Owner</DisplayName></Owner>"@ + "<Buckets>"@
        + bucket_entries_xml(bs) + "</Buckets>"@ + "</ListAllMyBucketsResult>"@
}

/// Writes the ListAllMyBuckets answer for buckets given as (name, creation
/// date in RFC 3339).
pub fn list_buckets_xml(buckets: &[(String, String)]) -> (r: String)
    ensures
        r@ == list_buckets_xml_spec(crate::outside::pair_views(buckets@)),
{
    let ghost bv = crate::outside::pair_views(buckets@);
    let mut xml = String::new();
    push_str(&mut xml, "<?xml version=\"1.0\" encoding=\"UTF-8\"?>");
    push_str(&mut xml, "<ListAllMyBucketsResult>");
    push_str(&mut xml, "<Owner><ID>owner-id</ID><DisplayName>Owner</DisplayName></Owner>");
    push_str(&mut xml, "<Buckets>");
    let ghost head = xml@;
    let n = buckets.len();
    for i in 0..n
        invariant
            n == buckets@.len(),
            bv == crate::outside::pair_views(buckets@),
            xml@ == head + bucket_entries_xml(bv.take(i as int)),
    {
        push_str(&mut xml, "<Bucket>");
        push_str(&mut xml, "<Name>");
        let e = escape_xml(buckets[i].0.as_str());
        push_str(&mut xml, e.as_str());
        push_str(&mut xml, "</Name>");
        push_str(&mut xml, "<CreationDate>");
        push_str(&mut xml, buckets[i].1.as_str());
        push_str(&mut xml, "</CreationDate>");
        push_str(&mut xml, "</Bucket>");
        assert(bv.take(i + 1).drop_last() =~= bv.take(i as int));
        assert(bv.take(i + 1).last() == (buckets@[i as int].0@, buckets@[i as int].1@));
        assert(xml@ =~= head + bucket_entries_xml(bv.take(i + 1)));
    }
    assert(bv.take(n as int) =~= bv);
    push_str(&mut xml, "</Buckets>");
    push_str(&mut xml, "</ListAllMyBucketsResult>");
    xml
}

/// The GetBucketLocation answer: empty for `us-east-1` (or no region),
/// otherwise the region.
pub open spec fn bucket_location_xml_spec(region: Seq<char>) -> Seq<char> {
    if region == "us-east-1"@ || region.len() == 0 {
        "<?xml version=\"1.0\" encoding=\"UTF-8\"?><LocationConstraint xmlns=\"http://s3.amazonaws.com/doc/2006-03-01/\"/>"@
    } else {
        "<?xml version=\"1.0\" encoding=\"UTF-8\"?><LocationConstraint xmlns=\"http://s3.amazonaws.com/doc/2006-03-01/\"><LocationConstraint>"@
            + escape_xml_spec(region) + "</LocationConstraint></LocationConstraint>"@
    }
}

/// Writes the GetBucketLocation answer for a bucket's region.
pub fn bucket_location_xml(region: &str) -> (r: String)
    ensures
        r@ == bucket_location_xml_spec(region@),
{
    let mut xml = String::new();
    if crate::text::str_eq(region, "us-east-1") || chars_of(region).len() == 0 {
        push_str(
            &mut xml,
            "<?xml version=\"1.0\" encoding=\"UTF-8\"?><LocationConstraint xmlns=\"http://s3.amazonaws.com/doc/2006-03-01/\"/>",
        );
    } else {
        push_str(
            &mut xml,
            "<?xml version=\"1.0\" encoding=\"UTF-8\"?><LocationConstraint xmlns=\"http://s3.amazonaws.com/doc/2006-03-01/\"><LocationConstraint>",
        );
        let e = escape_xml(region);
        push_str(&mut xml, e.as_str());
        push_str(&mut xml, "</LocationConstraint></LocationConstraint>");
    }
    xml
}

/// The GetBucketAcl answer: the owner holds full control.
pub open spec fn bucket_acl_xml_spec() -> Seq<char> {
    "<?xml version=\"1.0\" encoding=\"UTF-8\"?><AccessControlPolicy xmlns=\"http://s3.amazonaws.com/doc/2006-03-01/\"><Owner><ID>owner-id</ID><DisplayName>Owner</DisplayName></Owner><AccessControlList><Grant><Grantee xmlns:xsi=\"http://www.w3.org/2001/XMLSchema-instance\" xsi:type=\"CanonicalUser\"><ID>owner-id</ID><DisplayName>Owner</DisplayName></Grantee><Permission>FULL_CONTROL</Permission></Grant></AccessControlList></AccessControlPolicy>"@
}

/// Writes the GetBucketAcl answer.
pub fn bucket_acl_xml() -> (r: String)
    ensures
        r@ == bucket_acl_xml_spec(),
{
    let mut xml = String::new();
    push_str(
        &mut xml,
        "<?xml version=\"1.0\" encoding=\"UTF-8\"?><AccessControlPolicy xmlns=\"http://s3.amazonaws.com/doc/2006-03-01/\"><Owner><ID>owner-id</ID><DisplayName>Owner</DisplayName></Owner><AccessControlList><Grant><Grantee xmlns:xsi=\"http://www.w3.org/2001/XMLSchema-instance\" xsi:type=\"CanonicalUser\"><ID>owner-id</ID><DisplayName>Owner</DisplayName></Grantee><Permission>FULL_CONTROL</Permission></Grant></AccessControlList></AccessControlPolicy>",
    );
    xml
}

// ---------------------------------------------------------------------------
// Object listings
// ---------------------------------------------------------------------------

/// An object as ListObjects shows it; `last_modified` is already formatted.
pub struct ObjectListing {
    pub key: String,
    pub last_modified: String,
    pub size: u64,
    pub etag: String,
    pub storage_class: String,
}

/// One object of a ListObjects answer.
pub open spec fn object_entry_xml(o: ObjectListing) -> Seq<char> {
    "\n    <Contents>\n        <Key>"@ + o.key@ + "</Key>\n        <LastModified>"@ + o.last_modified@
        + "</LastModified>\n        <Size>"@ + decimal(o.size as nat) + "</Size>\n        <ETag>\""@ + o.etag@
        + "\"</ETag>\n        <StorageClass>"@ + o.storage_class@ + "</StorageClass>\n    </Contents>\n"@
}

/// The objects of a ListObjects answer, in order.
pub open spec fn object_entries_xml(os: Seq<ObjectListing>) -> Seq<char>
    decreases os.len(),
{
    if os.len() == 0 {
        Seq::<char>::empty()
    } else {
        object_entries_xml(os.drop_last()) + object_entry_xml(os.last())
    }
}

/// The ListObjects answer for a bucket (keys are written as stored).
pub open spec fn list_objects_xml_spec(bucket: Seq<char>, os: Seq<ObjectListing>) -> Seq<char> {
    "<?xml version=\"1.0\" encoding=\"UTF-8\"?>\n<ListBucketResult xmlns=\"http://s3.amazonaws.com/doc/2006-03-01/\">\n    <Name>"@
        + bucket + "</Name>\n    <Prefix></Prefix>\n    <KeyCount>"@ + decimal(os.len()) + "</KeyCount>\n    <MaxKeys>1000</MaxKeys>\n    <IsTruncated>false</IsTruncated>\n"@
        + object_entries_xml(os) + "\n</ListBucketResult>"@
}

proof fn lemma_object_entries_prefix(os: Seq<ObjectListing>, j: int)
    requires
        0 <= j <= os.len(),
    ensures
        object_entries_xml(os.take(j)).len() <= object_entries_xml(os).len(),
        object_entries_xml(os).take(object_entries_xml(os.take(j)).len() as int) == object_entries_xml(os.take(j)),
    decreases os.len(),
{
    if j == os.len() {
        assert(os.take(j) =~= os);
    } else {
        let init = os.drop_last();
        assert(init.take(j) =~= os.take(j));
        lemma_object_entries_prefix(init, j);
        let a = object_entries_xml(init);
        let b = object_entry_xml(os.last());
        let pre = object_entries_xml(os.take(j));
        assert((a + b).take(pre.len() as int) =~= a.take(pre.len() as int));
    }
}

/// Whether `ps` places the entries of `os` in `xml`, one after the other:
/// entry `i` is written at `ps[i]`, and ends before entry `i + 1` begins.
pub open spec fn entries_placed(xml: Seq<char>, os: Seq<ObjectListing>, ps: Seq<int>) -> bool {
    &&& ps.len() == os.len()
    &&& forall|i: int| 0 <= i < os.len() ==> occurs_at(xml, object_entry_xml(#[trigger] os[i]), ps[i])
    &&& forall|i: int| 0 <= i < os.len() - 1 ==> #[trigger] ps[i] + object_entry_xml(os[i]).len() <= ps[i + 1]
}

proof fn lemma_entry_at(head: Seq<char>, tail: Seq<char>, os: Seq<ObjectListing>, i: int)
    requires
        0 <= i < os.len(),
    ensures
        occurs_at(
            head + object_entries_xml(os) + tail,
            object_entry_xml(os[i]),
            (head.len() + object_entries_xml(os.take(i)).len()) as int,
        ),
{
    let xml = head + object_entries_xml(os) + tail;
    let all = object_entries_xml(os);
    lemma_object_entries_prefix(os, i + 1);
    assert(os.take(i + 1).drop_last() =~= os.take(i));
    assert(os.take(i + 1).last() == os[i]);
    let pre = object_entries_xml(os.take(i));
    let e = object_entry_xml(os[i]);
    assert(object_entries_xml(os.take(i + 1)) == pre + e);
    let p = (head.len() + pre.len()) as int;
    assert forall|k: int| 0 <= k < e.len() implies xml[p + k] == e[k] by {
        assert(xml[p + k] == all[pre.len() + k]);
        assert(all.take((pre + e).len() as int)[pre.len() + k] == (pre + e)[pre.len() + k]);
    }
    assert(xml.subrange(p, p + e.len()) =~= e);
}

proof fn lemma_entries_placed(head: Seq<char>, tail: Seq<char>, os: Seq<ObjectListing>)
    ensures
        entries_placed(
            head + object_entries_xml(os) + tail,
            os,
            Seq::new(os.len(), |i: int| (head.len() + object_entries_xml(os.take(i)).len()) as int),
        ),
{
    let xml = head + object_entries_xml(os) + tail;
    let ps = Seq::new(os.len(), |i: int| (head.len() + object_entries_xml(os.take(i)).len()) as int);
    assert forall|i: int| 0 <= i < os.len() implies occurs_at(xml, object_entry_xml(#[trigger] os[i]), ps[i]) by {
        lemma_entry_at(head, tail, os, i);
    }
    assert forall|i: int| 0 <= i < os.len() - 1 implies #[trigger] ps[i] + object_entry_xml(os[i]).len() <= ps[i + 1] by {
        assert(os.take(i + 1).drop_last() =~= os.take(i));
        assert(os.take(i + 1).last() == os[i]);
    }
}

/// The ListObjects answer lists every object given, in order: it holds one
/// `<Contents>` entry per object, with its key, size, ETag and storage
/// class, each after the one before, and its `KeyCount` is the number of
/// objects.
pub proof fn law_listing_holds_every_object(bucket: Seq<char>, os: Seq<ObjectListing>)
    ensures
        exists|ps: Seq<int>| entries_placed(list_objects_xml_spec(bucket, os), os, ps),
        contains_sub(list_objects_xml_spec(bucket, os), "<KeyCount>"@ + decimal(os.len()) + "</KeyCount>"@),
{
    let xml = list_objects_xml_spec(bucket, os);
    let kc = "<KeyCount>"@ + decimal(os.len()) + "</KeyCount>"@;
    let lead = "<?xml version=\"1.0\" encoding=\"UTF-8\"?>\n<ListBucketResult xmlns=\"http://s3.amazonaws.com/doc/2006-03-01/\">\n    <Name>"@
        + bucket + "</Name>\n    <Prefix></Prefix>\n    "@;
    let after = "\n    <MaxKeys>1000</MaxKeys>\n    <IsTruncated>false</IsTruncated>\n"@;
    let head = lead + kc + after;
    let tail = "\n</ListBucketResult>"@;
    assert(xml =~= head + object_entries_xml(os) + tail) by {
        reveal_strlit("<KeyCount>");
        reveal_strlit("</KeyCount>");
        reveal_strlit("</Name>\n    <Prefix></Prefix>\n    <KeyCount>");
        reveal_strlit("</KeyCount>\n    <MaxKeys>1000</MaxKeys>\n    <IsTruncated>false</IsTruncated>\n");
        reveal_strlit("</Name>\n    <Prefix></Prefix>\n    ");
        reveal_strlit("\n    <MaxKeys>1000</MaxKeys>\n    <IsTruncated>false</IsTruncated>\n");
    }
    lemma_entries_placed(head, tail, os);
    assert(xml.subrange(lead.len() as int, (lead.len() + kc.len()) as int) =~= kc);
    assert(occurs_at(xml, kc, lead.len() as int));
}

fn push_u64(s: &mut String, n: u64)
    ensures
        final(s)@ == old(s)@ + decimal(n as nat),
{
    let mut d: Vec<char> = Vec::new();
    push_decimal(&mut d, n);
    push_chars(s, d.as_slice());
}

/// Writes the ListObjects answer for a bucket.
pub fn list_objects_xml(bucket: &str, objects: &[ObjectListing]) -> (r: String)
    ensures
        r@ == list_objects_xml_spec(bucket@, objects@),
{
    let mut xml = String::new();
    push_str(
        &mut xml,
        "<?xml version=\"1.0\" encoding=\"UTF-8\"?>\n<ListBucketResult xmlns=\"http://s3.amazonaws.com/doc/2006-03-01/\">\n    <Name>",
    );
    push_str(&mut xml, bucket);
    push_str(&mut xml, "</Name>\n    <Prefix></Prefix>\n    <KeyCount>");
    push_u64(&mut xml, objects.len() as u64);
    push_str(&mut xml, "</KeyCount>\n    <MaxKeys>1000</MaxKeys>\n    <IsTruncated>false</IsTruncated>\n");
    let ghost head = xml@;
    let n = objects.len();
    for i in 0..n
        invariant
            n == objects@.len(),
            xml@ == head + object_entries_xml(objects@.take(i as int)),
    {
        let o = &objects[i];
        push_str(&mut xml, "\n    <Contents>\n        <Key>");
        push_str(&mut xml, o.key.as_str());
        push_str(&mut xml, "</Key>\n        <LastModified>");
        push_str(&mut xml, o.last_modified.as_str());
        push_str(&mut xml, "</LastModified>\n        <Size>");
        push_u64(&mut xml, o.size);
        push_str(&mut xml, "</Size>\n        <ETag>\"");
        push_str(&mut xml, o.etag.as_str());
        push_str(&mut xml, "\"</ETag>\n        <StorageClass>");
        push_str(&mut xml, o.storage_class.as_str());
        push_str(&mut xml, "</StorageClass>\n    </Contents>\n");
        assert(objects@.take(i + 1).drop_last() =~= objects@.take(i as int));
        assert(xml@ =~= head + object_entries_xml(objects@.take(i + 1)));
    }
    assert(objects@.take(n as int) =~= objects@);
    push_str(&mut xml, "\n</ListBucketResult>");
    xml
}

/// A version as ListObjectVersions shows it; `last_modified` is already formatted.
pub struct VersionListing {
    pub key: String,
    pub version_id: Option<String>,
    pub last_modified: String,
    pub etag: String,
    pub size: u64,
    pub storage_class: String,
    pub object_hash: String,
}

/// The version id shown for a version: its id, or `null`.
pub open spec fn version_id_text(v: VersionListing) -> Seq<char> {
    match v.version_id {
        Some(id) => id@,
        None => "null"@,
    }
}

/// Whether a version is shown as the latest: it is the unversioned record.
pub open spec fn is_latest_text(v: VersionListing) -> Seq<char> {
    if v.version_id is None {
        "true"@
    } else {
        "false"@
    }
}

/// One version of a ListObjectVersions answer: a delete marker (no data
/// hash, no size) or a version.
pub open spec fn version_entry_xml(v: VersionListing) -> Seq<char> {
    if v.object_hash@.len() == 0 && v.size == 0 {
        "\n    <DeleteMarker>\n        <Key>"@ + escape_xml_spec(v.key@) + "</Key>\n        <VersionId>"@
            + version_id_text(v) + "</VersionId>\n        <IsLatest>"@ + is_latest_text(v)
            + "</IsLatest>\n        <LastModified>"@ + v.last_modified@
            + "</LastModified>\n        <Owner><ID>owner-id</ID></Owner>\n    </DeleteMarker>\n"@
    } else {
        "\n    <Version>\n        <Key>"@ + escape_xml_spec(v.key@) + "</Key>\n        <VersionId>"@
            + version_id_text(v) + "</VersionId>\n        <IsLatest>"@ + is_latest_text(v)
            + "</IsLatest>\n        <LastModified>"@ + v.last_modified@ + "</LastModified>\n        <ETag>\""@
            + v.etag@ + "\"</ETag>\n        <Size>"@ + decimal(v.size as nat) + "</Size>\n        <StorageClass>"@
            + v.storage_class@ + "</StorageClass>\n        <Owner><ID>owner-id</ID></Owner>\n    </Version>\n"@
    }
}

/// A version is listed as a delete marker exactly when it is one (no data
/// hash and size 0, as `is_delete_marker` decides); any other version, an
/// empty object included, is listed as a `<Version>` with its ETag, size and
/// storage class.
pub proof fn law_version_entry_kind(v: VersionListing)
    ensures
        has_prefix(version_entry_xml(v), "\n    <DeleteMarker>"@) <==> (v.object_hash@.len() == 0 && v.size == 0),
        has_prefix(version_entry_xml(v), "\n    <Version>"@) <==> !(v.object_hash@.len() == 0 && v.size == 0),
        !(v.object_hash@.len() == 0 && v.size == 0) ==> {
            &&& contains_sub(version_entry_xml(v), "<ETag>\""@ + v.etag@ + "\"</ETag>"@)
            &&& contains_sub(version_entry_xml(v), "<Size>"@ + decimal(v.size as nat) + "</Size>"@)
            &&& contains_sub(version_entry_xml(v), "<StorageClass>"@ + v.storage_class@ + "</StorageClass>"@)
        },
{
    let e = version_entry_xml(v);
    let dm = "\n    <DeleteMarker>"@;
    let vv = "\n    <Version>"@;
    reveal_strlit("\n    <DeleteMarker>");
    reveal_strlit("\n    <Version>");
    reveal_strlit("\n    <DeleteMarker>\n        <Key>");
    reveal_strlit("\n    <Version>\n        <Key>");
    assert(dm[5] == '<' && vv[5] == '<' && dm[6] != vv[6]);
    if v.object_hash@.len() == 0 && v.size == 0 {
        assert(e.take(dm.len() as int) =~= dm);
        assert(e[6] != vv[6]);
        assert(e.take(vv.len() as int) != vv);
    } else {
        assert(e.take(vv.len() as int) =~= vv);
        assert(e[6] != dm[6]);
        assert(e.take(dm.len() as int) != dm);
        reveal_strlit("</LastModified>\n        <ETag>\"");
        reveal_strlit("\"</ETag>\n        <Size>");
        reveal_strlit("</Size>\n        <StorageClass>");
        reveal_strlit("</StorageClass>\n        <Owner><ID>owner-id</ID></Owner>\n    </Version>\n");
        reveal_strlit("<ETag>\"");
        reveal_strlit("\"</ETag>");
        reveal_strlit("<Size>");
        reveal_strlit("</Size>");
        reveal_strlit("<StorageClass>");
        reveal_strlit("</StorageClass>");
        let head = "\n    <Version>\n        <Key>"@ + escape_xml_spec(v.key@) + "</Key>\n        <VersionId>"@
            + version_id_text(v) + "</VersionId>\n        <IsLatest>"@ + is_latest_text(v)
            + "</IsLatest>\n        <LastModified>"@ + v.last_modified@;
        let etag = "<ETag>\""@ + v.etag@ + "\"</ETag>"@;
        let size = "<Size>"@ + decimal(v.size as nat) + "</Size>"@;
        let sc = "<StorageClass>"@ + v.storage_class@ + "</StorageClass>"@;
        let gap = "\n        "@;
        reveal_strlit("\n        ");
        reveal_strlit("</LastModified>");
        let tail = "\n        <Owner><ID>owner-id</ID></Owner>\n    </Version>\n"@;
        reveal_strlit("\n        <Owner><ID>owner-id</ID></Owner>\n    </Version>\n");
        let lm = "</LastModified>"@;
        assert(e =~= head + lm + gap + etag + gap + size + gap + sc + tail);
        let p1 = (head + lm + gap).len() as int;
        assert(e.subrange(p1, p1 + etag.len()) =~= etag);
        assert(occurs_at(e, etag, p1));
        let p2 = (head + lm + gap + etag + gap).len() as int;
        assert(e.subrange(p2, p2 + size.len()) =~= size);
        assert(occurs_at(e, size, p2));
        let p3 = (head + lm + gap + etag + gap + size + gap).len() as int;
        assert(e.subrange(p3, p3 + sc.len()) =~= sc);
        assert(occurs_at(e, sc, p3));
    }
}

/// The versions of a ListObjectVersions answer, in order.
pub open spec fn version_entries_xml(vs: Seq<VersionListing>) -> Seq<char>
    decreases vs.len(),
{
    if vs.len() == 0 {
        Seq::<char>::empty()
    } else {
        version_entries_xml(vs.drop_last()) + version_entry_xml(vs.last())
    }
}

/// The ListObjectVersions answer for a bucket.
pub open spec fn list_versions_xml_spec(bucket: Seq<char>, vs: Seq<VersionListing>) -> Seq<char> {
    "<?xml version=\"1.0\" encoding=\"UTF-8\"?>\n<ListObjectVersionsResult xmlns=\"http://s3.amazonaws.com/doc/2006-03-01/\">\n    <Name>"@
        + bucket + "</Name>\n    <Prefix></Prefix>\n    <MaxKeys>1000</MaxKeys>\n    <IsTruncated>false</IsTruncated>\n"@
        + version_entries_xml(vs) + "\n</ListObjectVersionsResult>"@
}

fn push_version_common(xml: &mut String, v: &VersionListing)
    ensures
        final(xml)@ == old(xml)@ + escape_xml_spec(v.key@) + "</Key>\n        <VersionId>"@ + version_id_text(*v)
            + "</VersionId>\n        <IsLatest>"@ + is_latest_text(*v) + "</IsLatest>\n        <LastModified>"@
            + v.last_modified@,
{
    let e = escape_xml(v.key.as_str());
    push_str(xml, e.as_str());
    push_str(xml, "</Key>\n        <VersionId>");
    match &v.version_id {
        Some(id) => push_str(xml, id.as_str()),
        None => push_str(xml, "null"),
    }
    push_str(xml, "</VersionId>\n        <IsLatest>");
    match &v.version_id {
        Some(_) => push_str(xml, "false"),
        None => push_str(xml, "true"),
    }
    push_str(xml, "</IsLatest>\n        <LastModified>");
    push_str(xml, v.last_modified.as_str());
}

fn version_entry(v: &VersionListing) -> (r: String)
    ensures
        r@ == version_entry_xml(*v),
{
    let mut e = String::new();
    if chars_of(v.object_hash.as_str()).len() == 0 && v.size == 0 {
        push_str(&mut e, "\n    <DeleteMarker>\n        <Key>");
        push_version_common(&mut e, v);
        push_str(&mut e, "</LastModified>\n        <Owner><ID>owner-id</ID></Owner>\n    </DeleteMarker>\n");
        assert(e@ =~= version_entry_xml(*v));
    } else {
        push_str(&mut e, "\n    <Version>\n        <Key>");
        push_version_common(&mut e, v);
        push_str(&mut e, "</LastModified>\n        <ETag>\"");
        push_str(&mut e, v.etag.as_str());
        push_str(&mut e, "\"</ETag>\n        <Size>");
        push_u64(&mut e, v.size);
        push_str(&mut e, "</Size>\n        <StorageClass>");
        push_str(&mut e, v.storage_class.as_str());
        push_str(&mut e, "</StorageClass>\n        <Owner><ID>owner-id</ID></Owner>\n    </Version>\n");
        assert(e@ =~= version_entry_xml(*v));
    }
    e
}

fn push_version_entry(xml: &mut String, v: &VersionListing)
    ensures
        final(xml)@ == old(xml)@ + version_entry_xml(*v),
{
    let e = version_entry(v);
    push_str(xml, e.as_str());
}

/// Writes the ListObjectVersions answer for a bucket.
pub fn list_object_versions_xml(bucket: &str, versions: &[VersionListing]) -> (r: String)
    ensures
        r@ == list_versions_xml_spec(bucket@, versions@),
{
    let mut xml = String::new();
    push_str(
        &mut xml,
        "<?xml version=\"1.0\" encoding=\"UTF-8\"?>\n<ListObjectVersionsResult xmlns=\"http://s3.amazonaws.com/doc/2006-03-01/\">\n    <Name>",
    );
    push_str(&mut xml, bucket);
    push_str(&mut xml, "</Name>\n    <Prefix></Prefix>\n    <MaxKeys>1000</MaxKeys>\n    <IsTruncated>false</IsTruncated>\n");
    let ghost head = xml@;
    let n = versions.len();
    for i in 0..n
        invariant
            n == versions@.len(),
            xml@ == head + version_entries_xml(versions@.take(i as int)),
    {
        push_version_entry(&mut xml, &versions[i]);
        assert(versions@.take(i + 1).drop_last() =~= versions@.take(i as int));
        assert(xml@ =~= head + version_entries_xml(versions@.take(i + 1)));
    }
    assert(versions@.take(n as int) =~= versions@);
    push_str(&mut xml, "\n</ListObjectVersionsResult>");
    xml
}

// ---------------------------------------------------------------------------
// Batch delete
// ---------------------------------------------------------------------------

/// The position of the first occurrence of `p` in `s`, if any.
pub open spec fn find_sub(s: Seq<char>, p: Seq<char>) -> Option<int>
    decreases s.len(),
{
    if s.len() < p.len() {
        None
    } else if occurs_at(s, p, 0) {
        Some(0)
    } else if s.len() == 0 {
        None
    } else {
        match find_sub(s.drop_first(), p) {
            Some(i) => Some(i + 1),
            None => None,
        }
    }
}

proof fn lemma_occurs_shift(s: Seq<char>, p: Seq<char>, i: int)
    requires
        s.len() > 0,
        i >= 1,
    ensures
        occurs_at(s, p, i) == occurs_at(s.drop_first(), p, i - 1),
{
    if 0 <= i - 1 && i + p.len() <= s.len() {
        assert(s.subrange(i, i + p.len()) =~= s.drop_first().subrange(i - 1, i - 1 + p.len()));
    }
}

proof fn lemma_find_sub(s: Seq<char>, p: Seq<char>, i: int)
    requires
        0 <= i,
        forall|k: int| 0 <= k < i ==> !occurs_at(s, p, k),
    ensures
        occurs_at(s, p, i) ==> find_sub(s, p) == Some(i),
        i + p.len() > s.len() ==> find_sub(s, p) is None,
    decreases i,
{
    if i > 0 && s.len() >= p.len() && s.len() > 0 {
        assert(!occurs_at(s, p, 0));
        assert forall|k: int| 0 <= k < i - 1 implies !occurs_at(s.drop_first(), p, k) by {
            lemma_occurs_shift(s, p, k + 1);
        }
        lemma_occurs_shift(s, p, i);
        lemma_find_sub(s.drop_first(), p, i - 1);
    }
}

proof fn lemma_find_sub_bounds(s: Seq<char>, p: Seq<char>)
    ensures
        find_sub(s, p) matches Some(i) ==> occurs_at(s, p, i),
    decreases s.len(),
{
    if s.len() >= p.len() && !occurs_at(s, p, 0) && s.len() > 0 {
        lemma_find_sub_bounds(s.drop_first(), p);
        if let Some(j) = find_sub(s.drop_first(), p) {
            lemma_occurs_shift(s, p, j + 1);
        }
    }
}

/// The first occurrence of `p` in `v` at or after `from`.
fn find_from(v: &[char], p: &[char], from: usize) -> (r: Option<usize>)
    requires
        from <= v@.len(),
        p@.len() > 0,
    ensures
        match r {
            Some(i) => find_sub(v@.skip(from as int), p@) == Some(i - from) && from <= i,
            None => find_sub(v@.skip(from as int), p@) is None,
        },
{
    let ghost t = v@.skip(from as int);
    let n = v.len();
    let mut i: usize = from;
    while i < n
        invariant
            from <= i <= n,
            n == v@.len(),
            t == v@.skip(from as int),
            forall|k: int| 0 <= k < i - from ==> !occurs_at(t, p@, k),
        decreases n - i,
    {
        let hit = occurs_at_exec(v, p, i);
        proof {
            if i + p@.len() <= n {
                assert(v@.subrange(i as int, i + p@.len()) =~= t.subrange(i - from, i - from + p@.len()));
            }
        }
        assert(hit == occurs_at(t, p@, i - from));
        if hit {
            proof {
                lemma_find_sub(t, p@, i - from);
            }
            return Some(i);
        }
        i = i + 1;
    }
    proof {
        lemma_find_sub(t, p@, n - from);
    }
    None
}

/// The pieces of `s` between occurrences of the non-empty string `p`, as
/// `str::split(p)` yields them.
pub open spec fn split_str(s: Seq<char>, p: Seq<char>) -> Seq<Seq<char>>
    decreases s.len(),
{
    if p.len() == 0 {
        seq![s]
    } else {
        match find_sub(s, p) {
            Some(i) => if 0 <= i && i + p.len() <= s.len() {
                seq![s.take(i)] + split_str(s.skip(i + p.len()), p)
            } else {
                seq![s]
            },
            None => seq![s],
        }
    }
}

/// The keys a batch-delete body names: for each piece of the body after a
/// `<Key>` (and the piece before the first), the text up to its first
/// `</Key>`, when it has one.
pub open spec fn delete_keys_of(pieces: Seq<Seq<char>>) -> Seq<Seq<char>>
    decreases pieces.len(),
{
    if pieces.len() == 0 {
        Seq::<Seq<char>>::empty()
    } else {
        let prev = delete_keys_of(pieces.drop_last());
        let last = pieces.last();
        match find_sub(last, "</Key>"@) {
            Some(e) => prev.push(last.take(e)),
            None => prev,
        }
    }
}

/// The keys named by a batch-delete body.
pub open spec fn delete_keys(body: Seq<char>) -> Seq<Seq<char>> {
    delete_keys_of(split_str(body, "<Key>"@))
}

/// The keys named by a batch-delete body `<Delete><Object><Key>...</Key></Object>...</Delete>`.
pub fn parse_delete_keys(body: &str) -> (r: Vec<String>)
    ensures
        r@.map_values(|k: String| k@) == delete_keys(body@),
{
    let v = chars_of(body);
    let open = chars_of("<Key>");
    let close = chars_of("</Key>");
    proof {
        reveal_strlit("<Key>");
        reveal_strlit("</Key>");
    }
    let mut pieces: Vec<Vec<char>> = Vec::new();
    let mut from: usize = 0;
    let ghost mut done: Seq<Seq<char>> = Seq::empty();
    assert(v@.skip(0) =~= v@);
    assert(done + split_str(v@.skip(0), open@) =~= split_str(v@, open@));
    // Split the body at each `<Key>`.
    loop
        invariant_except_break
            from <= v@.len(),
            v@ == body@,
            open@ == "<Key>"@,
            open@.len() == 5,
            done + split_str(v@.skip(from as int), open@) == split_str(v@, open@),
            pieces@.map_values(|p: Vec<char>| p@) == done,
        ensures
            pieces@.map_values(|p: Vec<char>| p@) == split_str(body@, "<Key>"@),
        decreases v@.len() - from,
    {
        let ghost t = v@.skip(from as int);
        match find_from(v.as_slice(), open.as_slice(), from) {
            Some(i) => {
                proof {
                    lemma_find_sub_bounds(t, open@);
                }
                let piece = slice_chars(v.as_slice(), from, i);
                assert(piece@ =~= t.take(i - from));
                assert(t.skip(i - from + 5) =~= v@.skip(i + 5));
                proof {
                    done = done.push(piece@);
                    assert(split_str(t, open@) == seq![t.take(i - from)] + split_str(t.skip(i - from + 5), open@));
                    assert(done + split_str(v@.skip(i + 5), open@) =~= (done.drop_last()
                        + split_str(t, open@)));
                }
                pieces.push(piece);
                assert(pieces@.map_values(|p: Vec<char>| p@) =~= done);
                assert(i + 5 <= v.len());
                from = i + 5;
            },
            None => {
                let piece = slice_chars(v.as_slice(), from, v.len());
                assert(piece@ =~= t);
                proof {
                    let before = done;
                    done = done.push(piece@);
                    assert(split_str(t, open@) == seq![t]);
                    assert(done =~= before + split_str(t, open@));
                }
                pieces.push(piece);
                assert(pieces@.map_values(|p: Vec<char>| p@) =~= done);
                break;
            },
        }
    }
    let ghost all = pieces@.map_values(|p: Vec<char>| p@);
    assert(all == split_str(body@, "<Key>"@));
    // Keep, from each piece, the text before its first `</Key>`.
    let n = pieces.len();
    let mut keys: Vec<String> = Vec::new();
    for k in 0..n
        invariant
            n == pieces@.len(),
            all == pieces@.map_values(|p: Vec<char>| p@),
            close@ == "</Key>"@,
            close@.len() == 6,
            keys@.map_values(|s: String| s@) == delete_keys_of(all.take(k as int)),
    {
        assert(all.take(k + 1).drop_last() =~= all.take(k as int));
        assert(all.take(k + 1).last() == pieces@[k as int]@);
        assert(pieces@[k as int]@.skip(0) =~= pieces@[k as int]@);
        match find_from(pieces[k].as_slice(), close.as_slice(), 0) {
            Some(e) => {
                proof {
                    lemma_find_sub_bounds(pieces@[k as int]@, close@);
                }
                let key = slice_chars(pieces[k].as_slice(), 0, e);
                assert(key@ =~= pieces@[k as int]@.take(e as int));
                keys.push(string_of(key.as_slice()));
                assert(keys@.map_values(|s: String| s@) =~= delete_keys_of(all.take(k + 1)));
            },
            None => {},
        }
    }
    assert(all.take(n as int) =~= all);
    keys
}

/// What happened to one key of a batch delete.
pub enum DeleteOutcome {
    Deleted,
    /// The object was found but its record could not be removed.
    Failed,
    /// No such object.
    NoSuchKey,
}

/// One key of a DeleteResult answer.
pub open spec fn delete_entry_xml(key: Seq<char>, o: DeleteOutcome) -> Seq<char> {
    match o {
        DeleteOutcome::Deleted => "<Deleted><Key>"@ + escape_xml_spec(key) + "</Key></Deleted>\n"@,
        DeleteOutcome::Failed => "<Error><Key>"@ + escape_xml_spec(key) + "</Key><Code>InternalError</Code></Error>\n"@,
        DeleteOutcome::NoSuchKey => "<Error><Key>"@ + escape_xml_spec(key) + "</Key><Code>NoSuchKey</Code></Error>\n"@,
    }
}

/// The keys of a DeleteResult answer, in order.
pub open spec fn delete_entries_xml(es: Seq<(String, DeleteOutcome)>) -> Seq<char>
    decreases es.len(),
{
    if es.len() == 0 {
        Seq::<char>::empty()
    } else {
        delete_entries_xml(es.drop_last()) + delete_entry_xml(es.last().0@, es.last().1)
    }
}

/// The DeleteResult answer.
pub open spec fn delete_result_xml_spec(es: Seq<(String, DeleteOutcome)>) -> Seq<char> {
    "<?xml version=\"1.0\" encoding=\"UTF-8\"?>\n<DeleteResult xmlns=\"http://s3.amazonaws.com/doc/2006-03-01/\">\n"@
        + delete_entries_xml(es) + "</DeleteResult>"@
}

/// Writes the DeleteResult answer for the outcome of each key.
pub fn delete_result_xml(outcomes: &[(String, DeleteOutcome)]) -> (r: String)
    ensures
        r@ == delete_result_xml_spec(outcomes@),
{
    let mut xml = String::new();
    push_str(
        &mut xml,
        "<?xml version=\"1.0\" encoding=\"UTF-8\"?>\n<DeleteResult xmlns=\"http://s3.amazonaws.com/doc/2006-03-01/\">\n",
    );
    let ghost head = xml@;
    let n = outcomes.len();
    for i in 0..n
        invariant
            n == outcomes@.len(),
            xml@ == head + delete_entries_xml(outcomes@.take(i as int)),
    {
        let e = escape_xml(outcomes[i].0.as_str());
        match outcomes[i].1 {
            DeleteOutcome::Deleted => {
                push_str(&mut xml, "<Deleted><Key>");
                push_str(&mut xml, e.as_str());
                push_str(&mut xml, "</Key></Deleted>\n");
            },
            DeleteOutcome::Failed => {
                push_str(&mut xml, "<Error><Key>");
                push_str(&mut xml, e.as_str());
                push_str(&mut xml, "</Key><Code>InternalError</Code></Error>\n");
            },
            DeleteOutcome::NoSuchKey => {
                push_str(&mut xml, "<Error><Key>");
                push_str(&mut xml, e.as_str());
                push_str(&mut xml, "</Key><Code>NoSuchKey</Code></Error>\n");
            },
        }
        assert(outcomes@.take(i + 1).drop_last() =~= outcomes@.take(i as int));
        assert(xml@ =~= head + delete_entries_xml(outcomes@.take(i + 1)));
    }
    assert(outcomes@.take(n as int) =~= outcomes@);
    push_str(&mut xml, "</DeleteResult>");
    xml
}

// ---------------------------------------------------------------------------
// Multipart upload answers
// ---------------------------------------------------------------------------

/// The CompleteMultipartUpload answer: the bucket, key (escaped) and ETag
/// of the object the parts were joined into.
pub open spec fn complete_upload_xml_spec(bucket: Seq<char>, key: Seq<char>, etag: Seq<char>) -> Seq<char> {
    "<?xml version=\"1.0\" encoding=\"UTF-8\"?>\n<CompleteMultipartUploadResult xmlns=\"http://s3.amazonaws.com/doc/2006-03-01/\">"@
        + "<Bucket>"@ + escape_xml_spec(bucket) + "</Bucket>"@ + "<Key>"@ + escape_xml_spec(key) + "</Key>"@
        + "<ETag>\""@ + etag + "\"</ETag>"@ + "</CompleteMultipartUploadResult>"@
}

/// Writes the CompleteMultipartUpload answer.
pub fn complete_upload_xml(bucket: &str, key: &str, etag: &str) -> (r: String)
    ensures
        r@ == complete_upload_xml_spec(bucket@, key@, etag@),
{
    let mut xml = String::new();
    push_str(
        &mut xml,
        "<?xml version=\"1.0\" encoding=\"UTF-8\"?>\n<CompleteMultipartUploadResult xmlns=\"http://s3.amazonaws.com/doc/2006-03-01/\">",
    );
    push_str(&mut xml, "<Bucket>");
    let eb = escape_xml(bucket);
    push_str(&mut xml, eb.as_str());
    push_str(&mut xml, "</Bucket>");
    push_str(&mut xml, "<Key>");
    let ek = escape_xml(key);
    push_str(&mut xml, ek.as_str());
    push_str(&mut xml, "</Key>");
    push_str(&mut xml, "<ETag>\"");
    push_str(&mut xml, etag);
    push_str(&mut xml, "\"</ETag>");
    push_str(&mut xml, "</CompleteMultipartUploadResult>");
    assert(xml@ =~= complete_upload_xml_spec(bucket@, key@, etag@));
    xml
}

/// One part of a ListParts answer.
pub open spec fn part_entry_xml(p: UploadPart) -> Seq<char> {
    "<Part><PartNumber>"@ + decimal(p.part_number as nat) + "</PartNumber><ETag>\""@ + p.etag@
        + "\"</ETag><Size>"@ + decimal(p.size as nat) + "</Size></Part>"@
}

/// The parts of a ListParts answer, in order.
pub open spec fn part_entries_xml(ps: Seq<UploadPart>) -> Seq<char>
    decreases ps.len(),
{
    if ps.len() == 0 {
        Seq::<char>::empty()
    } else {
        part_entries_xml(ps.drop_last()) + part_entry_xml(ps.last())
    }
}

/// The ListParts answer for an upload.
pub open spec fn list_parts_xml_spec(bucket: Seq<char>, key: Seq<char>, upload_id: Seq<char>, ps: Seq<UploadPart>) -> Seq<char> {
    "<?xml version=\"1.0\" encoding=\"UTF-8\"?>\n<ListPartsResult xmlns=\"http://s3.amazonaws.com/doc/2006-03-01/\">"@
        + "<Bucket>"@ + escape_xml_spec(bucket) + "</Bucket>"@ + "<Key>"@ + escape_xml_spec(key) + "</Key>"@
        + "<UploadId>"@ + escape_xml_spec(upload_id) + "</UploadId>"@ + part_entries_xml(ps) + "</ListPartsResult>"@
}

/// Writes the ListParts answer for an upload and its parts.
pub fn list_parts_xml(bucket: &str, key: &str, upload_id: &str, parts: &[UploadPart]) -> (r: String)
    ensures
        r@ == list_parts_xml_spec(bucket@, key@, upload_id@, parts@),
{
    let mut xml = String::new();
    push_str(
        &mut xml,
        "<?xml version=\"1.0\" encoding=\"UTF-8\"?>\n<ListPartsResult xmlns=\"http://s3.amazonaws.com/doc/2006-03-01/\">",
    );
    push_str(&mut xml, "<Bucket>");
    let eb = escape_xml(bucket);
    push_str(&mut xml, eb.as_str());
    push_str(&mut xml, "</Bucket>");
    push_str(&mut xml, "<Key>");
    let ek = escape_xml(key);
    push_str(&mut xml, ek.as_str());
    push_str(&mut xml, "</Key>");
    push_str(&mut xml, "<UploadId>");
    let eu = escape_xml(upload_id);
    push_str(&mut xml, eu.as_str());
    push_str(&mut xml, "</UploadId>");
    let ghost head = xml@;
    let n = parts.len();
    for i in 0..n
        invariant
            n == parts@.len(),
            xml@ == head + part_entries_xml(parts@.take(i as int)),
    {
        let p = &parts[i];
        push_str(&mut xml, "<Part><PartNumber>");
        push_u64(&mut xml, p.part_number as u64);
        push_str(&mut xml, "</PartNumber><ETag>\"");
        push_str(&mut xml, p.etag.as_str());
        push_str(&mut xml, "\"</ETag><Size>");
        push_u64(&mut xml, p.size);
        push_str(&mut xml, "</Size></Part>");
        assert(parts@.take(i + 1).drop_last() =~= parts@.take(i as int));
        assert(xml@ =~= head + part_entries_xml(parts@.take(i + 1)));
    }
    assert(parts@.take(n as int) =~= parts@);
    push_str(&mut xml, "</ListPartsResult>");
    xml
}

/// An upload as ListMultipartUploads shows it; `initiated` is already formatted.
pub struct UploadListing {
    pub key: String,
    pub upload_id: String,
    pub initiated: String,
}

/// One upload of a ListMultipartUploads answer.
pub open spec fn upload_entry_xml(u: UploadListing) -> Seq<char> {
    "<Upload><Key>"@ + escape_xml_spec(u.key@) + "</Key><UploadId>"@ + escape_xml_spec(u.upload_id@)
        + "</UploadId><Initiated>"@ + u.initiated@ + "</Initiated></Upload>"@
}

/// The uploads of a ListMultipartUploads answer, in order.
pub open spec fn upload_entries_xml(us: Seq<UploadListing>) -> Seq<char>
    decreases us.len(),
{
    if us.len() == 0 {
        Seq::<char>::empty()
    } else {
        upload_entries_xml(us.drop_last()) + upload_entry_xml(us.last())
    }
}

/// The ListMultipartUploads answer for a bucket.
pub open spec fn list_uploads_xml_spec(bucket: Seq<char>, us: Seq<UploadListing>) -> Seq<char> {
    "<?xml version=\"1.0\" encoding=\"UTF-8\"?>\n<ListMultipartUploadsResult xmlns=\"http://s3.amazonaws.com/doc/2006-03-01/\">"@
        + "<Bucket>"@ + escape_xml_spec(bucket) + "</Bucket>"@ + upload_entries_xml(us)
        + "</ListMultipartUploadsResult>"@
}

/// Writes the ListMultipartUploads answer for a bucket.
pub fn list_uploads_xml(bucket: &str, uploads: &[UploadListing]) -> (r: String)
    ensures
        r@ == list_uploads_xml_spec(bucket@, uploads@),
{
    let mut xml = String::new();
    push_str(
        &mut xml,
        "<?xml version=\"1.0\" encoding=\"UTF-8\"?>\n<ListMultipartUploadsResult xmlns=\"http://s3.amazonaws.com/doc/2006-03-01/\">",
    );
    push_str(&mut xml, "<Bucket>");
    let eb = escape_xml(bucket);
    push_str(&mut xml, eb.as_str());
    push_str(&mut xml, "</Bucket>");
    let ghost head = xml@;
    let n = uploads.len();
    for i in 0..n
        invariant
            n == uploads@.len(),
            xml@ == head + upload_entries_xml(uploads@.take(i as int)),
    {
        let u = &uploads[i];
        push_str(&mut xml, "<Upload><Key>");
        let ek = escape_xml(u.key.as_str());
        push_str(&mut xml, ek.as_str());
        push_str(&mut xml, "</Key><UploadId>");
        let eu = escape_xml(u.upload_id.as_str());
        push_str(&mut xml, eu.as_str());
        push_str(&mut xml, "</UploadId><Initiated>");
        push_str(&mut xml, u.initiated.as_str());
        push_str(&mut xml, "</Initiated></Upload>");
        assert(uploads@.take(i + 1).drop_last() =~= uploads@.take(i as int));
        assert(xml@ =~= head + upload_entries_xml(uploads@.take(i + 1)));
    }
    assert(uploads@.take(n as int) =~= uploads@);
    push_str(&mut xml, "</ListMultipartUploadsResult>");
    xml
}

} // verus!
