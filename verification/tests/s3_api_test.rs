use objstor::bucket_ops::{check_bucket_name, plan_new_bucket};
use objstor::pool::{PoolConfig, PoolStatus, StoragePool};
use objstor::tier::StorageTier;
use objstor::s3_object::is_open_ended_range;
use objstor::gateway::{rate_limit_target, request_gate, request_uri, source_ip, RequestGate};
use objstor::s3_error::S3Error;
use objstor::s3_object::{
    build_put_response, compute_etag, content_hash, content_range, content_type_or_default, decrypt_plan,
    encryption_header, is_delete_marker, needs_physical_write, parse_range, parse_sse_type,
    storage_class_or_default, DecryptPlan, SseType,
};
use objstor::s3_routes::{get_query_param, has_query_param, parse_part_number, S3Route};
use objstor::s3_xml::{
    bucket_location_xml, complete_upload_xml, delete_result_xml, escape_xml, is_valid_bucket_name, list_buckets_xml,
    list_parts_xml, list_uploads_xml, parse_delete_keys, DeleteOutcome, UploadListing,
};
use objstor::multipart::UploadPart;
use objstor::error::Error;

fn s(x: &str) -> String {
    x.to_string()
}

#[test]
fn routes_bucket_operations() {
    assert!(matches!(S3Route::route("GET", "/", ""), S3Route::ListBuckets));
    assert!(matches!(S3Route::route("PUT", "/", ""), S3Route::NotFound));
    assert!(matches!(S3Route::route("PUT", "/b", ""), S3Route::CreateBucket(b) if b == "b"));
    assert!(matches!(S3Route::route("PUT", "/b", "acl"), S3Route::PutBucketAcl(b) if b == "b"));
    assert!(matches!(S3Route::route("DELETE", "/b/", ""), S3Route::DeleteBucket(b) if b == "b"));
    assert!(matches!(S3Route::route("HEAD", "/b", ""), S3Route::HeadBucket(_)));
    assert!(matches!(S3Route::route("GET", "/b", "location"), S3Route::GetBucketLocation(_)));
    assert!(matches!(S3Route::route("GET", "/b", "acl"), S3Route::GetBucketAcl(_)));
    assert!(matches!(S3Route::route("GET", "/b", "versions"), S3Route::ListObjectVersions(_)));
    assert!(matches!(S3Route::route("GET", "/b", "versions&versionId=1"), S3Route::ListObjects(_)));
    assert!(matches!(S3Route::route("POST", "/b", "delete"), S3Route::BatchDelete(_)));
    assert!(matches!(S3Route::route("POST", "/b", ""), S3Route::MethodNotAllowed));
    assert!(matches!(S3Route::route("PATCH", "/b", ""), S3Route::NotFound));
}

#[test]
fn routes_object_operations() {
    assert!(matches!(S3Route::route("PUT", "/b/dir/file.txt", ""), S3Route::PutObject(b, k) if b == "b" && k == "dir/file.txt"));
    assert!(matches!(S3Route::route("GET", "//b//a//c", ""), S3Route::GetObject(b, k) if b == "b" && k == "a/c"));
    assert!(matches!(S3Route::route("GET", "/b/k", "versionId=v%201"), S3Route::GetObjectVersion(_, _, v) if v == "v 1"));
    assert!(matches!(S3Route::route("HEAD", "/b/k", ""), S3Route::HeadObject(_, _)));
    assert!(matches!(S3Route::route("DELETE", "/b/k", "versionId=7"), S3Route::DeleteObjectVersion(_, _, v) if v == "7"));
    assert!(matches!(S3Route::route("DELETE", "/b/k", ""), S3Route::DeleteObject(_, _)));
    assert!(matches!(S3Route::route("POST", "/b/k", ""), S3Route::NotFound));
}

#[test]
fn query_parameters() {
    assert_eq!(get_query_param("a=1&versionId=abc", "versionId"), Some(s("abc")));
    assert_eq!(get_query_param("a=1", "versionId"), None);
    assert_eq!(get_query_param("versionId", "versionId"), None);
    assert_eq!(get_query_param("x=a%20b", "x"), Some(s("a b")));
}

#[test]
fn xml_escaping() {
    assert_eq!(escape_xml("a<b>&\"c'"), "a&lt;b&gt;&amp;&quot;c&apos;");
    assert_eq!(escape_xml("plain"), "plain");
}

#[test]
fn bucket_names() {
    assert!(is_valid_bucket_name("my-bucket-1"));
    assert!(!is_valid_bucket_name("ab"));
    assert!(!is_valid_bucket_name("-abc"));
    assert!(!is_valid_bucket_name("abc-"));
    assert!(!is_valid_bucket_name("my_bucket"));
    assert!(!is_valid_bucket_name(&"a".repeat(64)));
    assert!(is_valid_bucket_name(&"a".repeat(63)));
    assert!(!is_valid_bucket_name("MyBucket"));
    assert!(!is_valid_bucket_name("b\u{e4}cket"));
    assert!(is_valid_bucket_name("9lives"));
}

#[test]
fn bucket_list_and_location_answers() {
    let xml = list_buckets_xml(&[(s("a&b"), s("2024-01-01T00:00:00Z"))]);
    assert_eq!(
        xml,
        "<?xml version=\"1.0\" encoding=\"UTF-8\"?><ListAllMyBucketsResult><Owner><ID>owner-id</ID><DisplayName>Owner</DisplayName></Owner><Buckets><Bucket><Name>a&amp;b</Name><CreationDate>2024-01-01T00:00:00Z</CreationDate></Bucket></Buckets></ListAllMyBucketsResult>"
    );
    assert!(bucket_location_xml("us-east-1").ends_with("/>"));
    assert!(bucket_location_xml("eu-west-1").contains("<LocationConstraint>eu-west-1</LocationConstraint>"));
}

#[test]
fn batch_delete_request_and_answer() {
    let body = "<Delete><Object><Key>a.txt</Key></Object><Object><Key>b&amp;c</Key></Object></Delete>";
    assert_eq!(parse_delete_keys(body), vec![s("a.txt"), s("b&amp;c")]);
    let xml = delete_result_xml(&[(s("a"), DeleteOutcome::Deleted), (s("b"), DeleteOutcome::NoSuchKey)]);
    assert_eq!(
        xml,
        "<?xml version=\"1.0\" encoding=\"UTF-8\"?>\n<DeleteResult xmlns=\"http://s3.amazonaws.com/doc/2006-03-01/\">\n<Deleted><Key>a</Key></Deleted>\n<Error><Key>b</Key><Code>NoSuchKey</Code></Error>\n</DeleteResult>"
    );
}

#[test]
fn byte_ranges() {
    assert_eq!(parse_range("bytes=0-9", 100).unwrap(), (0, 9));
    assert_eq!(parse_range("bytes=90-200", 100).unwrap(), (90, 99));
    assert_eq!(parse_range("bytes=10-", 100).unwrap(), (10, 99));
    assert_eq!(parse_range("bytes=-10", 100).unwrap(), (90, 99));
    assert!(matches!(parse_range("bytes=-0", 100), Err(Error::InvalidRange)));
    assert!(matches!(parse_range("bytes=100-", 100), Err(Error::InvalidRange)));
    assert!(matches!(parse_range("bytes=5-4", 100), Err(Error::InvalidRange)));
    assert!(matches!(parse_range("items=0-1", 100), Err(Error::InvalidRange)));
    assert_eq!(content_range(0, 9, 100), "bytes 0-9/100");
}

#[test]
fn encryption_requests_and_headers() {
    assert!(matches!(parse_sse_type(Some("AES256"), None, None), SseType::SseS3));
    assert!(matches!(parse_sse_type(None, Some("AES256"), Some("k")), SseType::SseC(k) if k == "k"));
    assert!(matches!(parse_sse_type(Some("aws:kms"), Some("AES256"), None), SseType::Unencrypted));
    assert_eq!(encryption_header("SSE-S3"), Some(("x-amz-server-side-encryption", "AES256")));
    assert_eq!(encryption_header("SSE-C"), Some(("x-amz-server-side-encryption-customer-algorithm", "AES256")));
    assert_eq!(encryption_header(""), None);
    assert!(matches!(decrypt_plan("SSE-S3"), DecryptPlan::MasterKey));
    assert!(matches!(decrypt_plan("SSE-C"), DecryptPlan::CustomerKey));
    assert!(matches!(decrypt_plan("other"), DecryptPlan::AsStored));
}

#[test]
fn put_answer_headers() {
    let h = build_put_response("\"e\"", &SseType::SseS3);
    assert_eq!(
        h,
        vec![
            (s("etag"), s("\"e\"")),
            (s("x-amz-version-id"), s("null")),
            (s("x-amz-server-side-encryption"), s("AES256"))
        ]
    );
    assert_eq!(build_put_response("e", &SseType::Unencrypted).len(), 2);
}

#[test]
fn object_helpers() {
    assert!(is_delete_marker("", 0));
    assert!(!is_delete_marker("abc", 0));
    assert_eq!(compute_etag(b"hello"), "5d41402abc4b2a76b9719d911017c592");
    assert_eq!(content_hash(b"abc"), "ba7816bf8f01cfea414140de5dae2223b00361a396177a9cb410ff61f20015ad");
    assert_eq!(storage_class_or_default(None), "STANDARD");
    assert_eq!(storage_class_or_default(Some("GLACIER")), "GLACIER");
    assert_eq!(content_type_or_default(None), "application/octet-stream");
    assert!(needs_physical_write(&SseType::SseC(s("k")), true));
    assert!(!needs_physical_write(&SseType::SseS3, true));
    assert!(needs_physical_write(&SseType::Unencrypted, false));
}

#[test]
fn s3_error_answers() {
    assert_eq!(S3Error::NoSuchBucket(s("b")).parts(), (404, "NoSuchBucket", s("b")));
    assert_eq!(S3Error::BucketAlreadyExists(s("b")).parts(), (409, "BucketAlreadyExists", s("b")));
    assert_eq!(S3Error::AccessDenied.parts(), (403, "AccessDenied", s("Access Denied")));
    assert_eq!(S3Error::SignatureDoesNotMatch.parts(), (403, "SignatureDoesNotMatch", s("Signature mismatch")));
    assert_eq!(S3Error::InvalidArgument(s("x")).parts(), (400, "InvalidArgument", s("x")));
    assert_eq!(S3Error::InternalError.parts(), (500, "InternalError", s("Internal error")));
}

#[test]
fn library_error_answers() {
    assert_eq!(Error::NoAvailablePool.message(), "No available storage pool");
    assert_eq!(Error::BucketNotFound(s("b")).status(), 404);
    assert_eq!(Error::SlowDown.status(), 500);
    assert_eq!(Error::StorageFull(s("p")).status(), 503);
    assert_eq!(Error::InvalidRange.status(), 500);
    assert_eq!(Error::SignatureMismatch.code(), "SignatureDoesNotMatch");
}

#[test]
fn request_gates() {
    assert_eq!(request_gate("GET", "/", None, false), RequestGate::RedirectToWeb);
    assert_eq!(request_gate("GET", "/", None, true), RequestGate::Signed);
    assert_eq!(request_gate("GET", "/b/k", Some("X-Amz-Signature=1"), false), RequestGate::Presigned);
    assert_eq!(request_gate("PUT", "/b/k", Some("X-Amz-Signature=1"), false), RequestGate::Signed);
    assert_eq!(rate_limit_target("/b/k/x"), (s("b"), Some(s("k"))));
    assert_eq!(rate_limit_target("/"), (s(""), None));
    assert_eq!(source_ip(None), "unknown");
    assert_eq!(source_ip(Some("10.0.0.1")), "10.0.0.1");
    assert_eq!(request_uri("/b/k", Some("a=1")), "/b/k?a=1");
    assert_eq!(request_uri("/b/k", None), "/b/k");
}

#[test]
fn bucket_creation_checks() {
    assert!(check_bucket_name("good-name").is_ok());
    assert!(matches!(check_bucket_name("x"), Err(Error::InvalidRequest(m)) if m == "Invalid bucket name"));
    let cfg = PoolConfig { id: s("pool-001"), path: s("/p"), capacity: 10, max_objects: 10, quota_enabled: false, tier: StorageTier::Hot };
    let pools = vec![StoragePool::with_usage(cfg, None)];
    assert!(matches!(plan_new_bucket("b", true, None, None, &pools), Err(Error::BucketAlreadyExists(b)) if b == "b"));
    let nb = plan_new_bucket("b", false, None, Some("pool-001"), &pools).unwrap();
    assert_eq!(nb.region, "us-east-1");
    assert_eq!(nb.preferred_pool, Some(s("pool-001")));
    assert_eq!(plan_new_bucket("b", false, Some("eu-west-1"), None, &pools).unwrap().region, "eu-west-1");
    assert!(matches!(plan_new_bucket("b", false, None, Some("nope"), &pools), Err(Error::InvalidRequest(m)) if m == "Pool 'nope' not found"));
    assert_eq!(pools[0].status, PoolStatus::Healthy);
}

#[test]
fn open_ended_ranges_are_recognised() {
    assert!(is_open_ended_range("bytes=3-"));
    assert!(!is_open_ended_range("bytes=3-5"));
    assert!(!is_open_ended_range("bytes=-5"));
    assert!(!is_open_ended_range("bytes=x-"));
    assert!(!is_open_ended_range("3-"));
}

#[test]
fn escaped_text_has_no_markup() {
    let e = escape_xml("<a href=\"x\">'&'</a>");
    assert!(!e.contains('<') && !e.contains('>') && !e.contains('"') && !e.contains('\''));
    assert_eq!(e, "&lt;a href=&quot;x&quot;&gt;&apos;&amp;&apos;&lt;/a&gt;");
}

#[test]
fn routes_multipart_operations() {
    assert!(matches!(S3Route::route("POST", "/b/k", "uploads"), S3Route::CreateMultipartUpload(b, k) if b == "b" && k == "k"));
    assert!(matches!(S3Route::route("PUT", "/b/k", "partNumber=2&uploadId=u1"),
        S3Route::UploadPart(b, k, u, p) if b == "b" && k == "k" && u == "u1" && p == "2"));
    assert!(matches!(S3Route::route("PUT", "/b/k", "uploadId=u1"), S3Route::PutObject(_, _)));
    assert!(matches!(S3Route::route("POST", "/b/k", "uploadId=u1"), S3Route::CompleteMultipartUpload(_, _, u) if u == "u1"));
    assert!(matches!(S3Route::route("DELETE", "/b/k", "uploadId=u1"), S3Route::AbortMultipartUpload(_, _, u) if u == "u1"));
    assert!(matches!(S3Route::route("GET", "/b/k", "uploadId=u1"), S3Route::ListParts(_, _, u) if u == "u1"));
    assert!(matches!(S3Route::route("GET", "/b", "uploads"), S3Route::ListMultipartUploads(b) if b == "b"));
    assert!(matches!(S3Route::route("GET", "/b", "prefix=uploads"), S3Route::ListObjects(_)));
}

#[test]
fn query_parameter_presence_and_part_numbers() {
    assert!(has_query_param("uploads", "uploads"));
    assert!(has_query_param("a=1&uploads=", "uploads"));
    assert!(!has_query_param("uploadsx", "uploads"));
    assert!(!has_query_param("", "uploads"));
    assert!(matches!(parse_part_number("1"), Ok(1)));
    assert!(matches!(parse_part_number("10000"), Ok(10000)));
    for bad in ["0", "10001", "x"] {
        assert!(matches!(parse_part_number(bad), Err(Error::InvalidRequest(m)) if m == "Invalid part number"));
    }
}

#[test]
fn multipart_answers() {
    assert_eq!(
        complete_upload_xml("b", "a&b", "e1"),
        "<?xml version=\"1.0\" encoding=\"UTF-8\"?>\n<CompleteMultipartUploadResult xmlns=\"http://s3.amazonaws.com/doc/2006-03-01/\"><Bucket>b</Bucket><Key>a&amp;b</Key><ETag>\"e1\"</ETag></CompleteMultipartUploadResult>"
    );
    let parts = vec![UploadPart { part_number: 1, object_hash: s("h"), size: 5, etag: s("e") }];
    assert_eq!(
        list_parts_xml("b", "k", "u", &parts),
        "<?xml version=\"1.0\" encoding=\"UTF-8\"?>\n<ListPartsResult xmlns=\"http://s3.amazonaws.com/doc/2006-03-01/\"><Bucket>b</Bucket><Key>k</Key><UploadId>u</UploadId><Part><PartNumber>1</PartNumber><ETag>\"e\"</ETag><Size>5</Size></Part></ListPartsResult>"
    );
    let ups = vec![UploadListing { key: s("k"), upload_id: s("u"), initiated: s("t") }];
    assert_eq!(
        list_uploads_xml("b", &ups),
        "<?xml version=\"1.0\" encoding=\"UTF-8\"?>\n<ListMultipartUploadsResult xmlns=\"http://s3.amazonaws.com/doc/2006-03-01/\"><Bucket>b</Bucket><Upload><Key>k</Key><UploadId>u</UploadId><Initiated>t</Initiated></Upload></ListMultipartUploadsResult>"
    );
}
