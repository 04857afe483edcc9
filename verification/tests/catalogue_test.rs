use objstor::admin::{apply_ai_patch, apply_server_patch, AiPatch, CreateAccessKeyRequest, ServerPatch, UpdateAccessKeyRequest};
use objstor::ai::{
    ai_readiness, bulk_tag_prompt, is_text_content_type, llm_host_port, strip_fences, summary_excerpt, summary_prompt,
    tag_prompt, AiUnavailable, TagEntry,
};
use objstor::config::{
    default_api_endpoint, default_log_dir, default_log_level, default_max_objects, default_max_request_size,
    default_max_tokens, default_pool_capacity, default_pool_tier, default_strategy, default_timeout_secs, AiConfig,
    ServerConfig,
};
use objstor::error::Error;
use objstor::iam::{IamEngine, Policy};
use objstor::metadata::{search_where_clause, SearchFilter, SqlParam};
use objstor::multipart::{MultipartUploadManager, UploadPart};

fn s(x: &str) -> String {
    x.to_string()
}

fn part(n: u32) -> UploadPart {
    UploadPart { part_number: n, object_hash: format!("h{}", n), size: 5, etag: format!("e{}", n) }
}

#[test]
fn multipart_upload_lifecycle() {
    let mut m = MultipartUploadManager::new();
    let u = m.create_upload(s("b"), s("k"), s("owner")).unwrap();
    assert_eq!(u.bucket, "b");
    assert!(m.get_upload(&u.upload_id).is_some());
    m.add_part(&u.upload_id, part(2)).unwrap();
    m.add_part(&u.upload_id, part(1)).unwrap();
    let parts = m.get_parts(&u.upload_id).unwrap();
    let numbers: Vec<u32> = parts.iter().map(|p| p.part_number).collect();
    assert_eq!(numbers, vec![1, 2]);
    assert_eq!(m.list_uploads("b").len(), 1);
    assert_eq!(m.list_uploads("other").len(), 0);
    let done = m.complete_upload(&u.upload_id).unwrap();
    assert_eq!(done.len(), 2);
    assert!(m.get_upload(&u.upload_id).is_none());
}

#[test]
fn multipart_refusals() {
    let mut m = MultipartUploadManager::new();
    assert!(matches!(m.add_part("nope", part(1)), Err(Error::UploadNotFound(id)) if id == "nope"));
    assert!(matches!(m.get_parts("nope"), Err(Error::UploadNotFound(_))));
    assert!(matches!(m.abort_upload("nope"), Err(Error::UploadNotFound(_))));
    let u = m.create_upload(s("b"), s("k"), s("o")).unwrap();
    m.add_part(&u.upload_id, part(1)).unwrap();
    m.add_part(&u.upload_id, part(3)).unwrap();
    assert!(matches!(m.complete_upload(&u.upload_id), Err(Error::InvalidPartOrder)));
    assert!(m.abort_upload(&u.upload_id).is_ok());
    assert!(m.get_upload(&u.upload_id).is_none());
}

#[test]
fn a_resent_part_replaces_the_earlier_one() {
    let mut m = MultipartUploadManager::new();
    let u = m.create_upload(s("b"), s("k"), s("o")).unwrap();
    m.add_part(&u.upload_id, part(1)).unwrap();
    let mut again = part(1);
    again.etag = s("new");
    m.add_part(&u.upload_id, again).unwrap();
    let parts = m.get_parts(&u.upload_id).unwrap();
    assert_eq!(parts.len(), 1);
    assert_eq!(parts[0].etag, "new");
}

#[test]
fn search_query_conditions() {
    let f = SearchFilter {
        bucket: Some(s("fb")),
        prefix: Some(s("photos/")),
        key_contains: Some(s("")),
        min_size: Some(10),
        max_size: None,
        content_type: Some(s("image/")),
        created_before: Some(100),
        created_after: None,
    };
    let (w, ps) = search_where_clause(&f, None);
    assert_eq!(
        w,
        "bucket = ? AND key LIKE ? AND size >= ? AND content_type LIKE ? AND created_at <= ? AND version_id IS NULL"
    );
    assert_eq!(ps.len(), 5);
    assert!(matches!(&ps[0], SqlParam::Text(b) if b == "fb"));
    assert!(matches!(&ps[1], SqlParam::Text(p) if p == "photos/%"));
    assert!(matches!(&ps[2], SqlParam::Int(10)));
    assert!(matches!(&ps[3], SqlParam::Text(c) if c == "%image/%"));
    assert!(matches!(&ps[4], SqlParam::Int(100)));
    let (w2, ps2) = search_where_clause(&f, Some(s("arg")));
    assert!(w2.starts_with("bucket = ?"));
    assert!(matches!(&ps2[0], SqlParam::Text(b) if b == "arg"));
    let empty = SearchFilter {
        bucket: None,
        prefix: None,
        key_contains: None,
        min_size: None,
        max_size: Some(u64::MAX),
        content_type: None,
        created_before: None,
        created_after: Some(-5),
    };
    let (w3, ps3) = search_where_clause(&empty, None);
    assert_eq!(w3, "size <= ? AND created_at >= ? AND version_id IS NULL");
    assert!(matches!(&ps3[0], SqlParam::Int(-1)));
    assert!(matches!(&ps3[1], SqlParam::Int(-5)));
}

#[test]
fn model_answers_lose_their_fences() {
    assert_eq!(strip_fences("  ```json\n{\"a\":1}\n```  "), "{\"a\":1}");
    assert_eq!(strip_fences("```\n[1]\n```"), "[1]");
    assert_eq!(strip_fences("plain"), "plain");
    // Unicode white space is trimmed as well.
    assert_eq!(strip_fences("\u{3000}```\n[2]\n```\u{2028}"), "[2]");
}

#[test]
fn assistant_endpoint_and_readiness() {
    assert_eq!(llm_host_port("http://127.0.0.1:7001/"), "127.0.0.1:7001");
    assert_eq!(llm_host_port("https://api.example.com//"), "api.example.com");
    assert_eq!(llm_host_port("localhost:1"), "localhost:1");
    assert_eq!(ai_readiness(false, "m"), Err(AiUnavailable::Disabled));
    assert_eq!(ai_readiness(true, ""), Err(AiUnavailable::NoModel));
    assert_eq!(ai_readiness(true, "m"), Ok(()));
    assert_eq!(AiUnavailable::Disabled.message(), "AI features are not enabled");
}

#[test]
fn summaries_and_tag_messages() {
    assert!(is_text_content_type("text/plain"));
    assert!(is_text_content_type("application/json"));
    assert!(!is_text_content_type("image/png"));
    let long = "x".repeat(5000);
    assert_eq!(summary_excerpt(&long).len(), 4000);
    assert_eq!(summary_excerpt("short"), "short");
    assert_eq!(summary_prompt("k.txt", "hi"), "Filename: k.txt\nContent:\nhi");
    assert_eq!(tag_prompt("a.pdf", &None, 42), "Filename: a.pdf\nContent-Type: unknown\nSize: 42 bytes");
    let entries = vec![
        TagEntry { key: s("a"), content_type: Some(s("text/plain")), size: 1 },
        TagEntry { key: s("b"), content_type: None, size: 20 },
    ];
    assert_eq!(
        bulk_tag_prompt(&entries),
        "- Filename: a, Content-Type: text/plain, Size: 1\n- Filename: b, Content-Type: unknown, Size: 20"
    );
}

#[test]
fn configuration_defaults() {
    assert_eq!(default_api_endpoint(), "http://127.0.0.1:7001");
    assert_eq!(default_max_tokens(), 1024);
    assert_eq!(default_timeout_secs(), 15);
    assert_eq!(default_max_request_size(), 5 * 1024 * 1024 * 1024);
    assert_eq!(default_log_level(), "info");
    assert_eq!(default_log_dir(), "./logs");
    assert_eq!(default_pool_capacity(), 100 * 1024 * 1024 * 1024);
    assert_eq!(default_max_objects(), 1_000_000);
    assert_eq!(default_pool_tier(), "hot");
    assert_eq!(default_strategy(), "least_loaded");
    let ai = AiConfig::default();
    assert!(!ai.enabled && ai.model.is_empty() && ai.max_tokens == 1024);
    let server = ServerConfig::default();
    assert_eq!((server.host.as_str(), server.port, server.s3_port), ("0.0.0.0", 8080, 8080));
}

#[test]
fn configuration_updates() {
    let mut server = ServerConfig::default();
    apply_server_patch(
        &mut server,
        ServerPatch { host: Some(s("127.0.0.1")), port: Some(70000), s3_port: None, log_level: None, log_dir: Some(s("/var/log")), max_request_size: Some(1) },
    );
    assert_eq!(server.host, "127.0.0.1");
    assert_eq!(server.port, (70000u64 % 65536) as u16);
    assert_eq!(server.s3_port, 8080);
    assert_eq!(server.log_dir, "/var/log");
    assert_eq!(server.max_request_size, 1);
    let mut ai = AiConfig::default();
    apply_ai_patch(
        &mut ai,
        AiPatch { enabled: Some(true), api_endpoint: None, api_key: Some(s("k")), model: Some(s("m")), max_tokens: Some(2048), timeout_secs: None, auto_tag: None },
    );
    assert!(ai.enabled);
    assert_eq!((ai.api_key.as_str(), ai.model.as_str(), ai.max_tokens, ai.timeout_secs), ("k", "m", 2048, 15));
}

#[test]
fn admin_request_checks() {
    let ok = CreateAccessKeyRequest { access_key_id: s("id"), secret_key: s("sec") };
    assert!(ok.validate().is_ok());
    let bad = CreateAccessKeyRequest { access_key_id: s(""), secret_key: s("sec") };
    assert_eq!(bad.validate(), Err("access_key_id and secret_key are required"));
    assert_eq!(UpdateAccessKeyRequest { secret_key: s("") }.validate(), Err("secret_key is required"));
}

#[test]
fn permissions_are_granted() {
    let policies = vec![Policy { effect: s("Deny"), actions: vec![s("*")], resources: vec![s("*")] }];
    assert!(matches!(IamEngine::check_permission("u", "s3:GetObject", "arn", &policies), Ok(true)));
    assert!(IamEngine::evaluate_policy(&serde_json::Value::Null, "a", "r"));
}

#[test]
fn policy_documents_default_to_the_current_version() {
    let p = objstor::iam::IAMPolicy::default();
    assert_eq!(p.version, "2012-10-17");
    assert!(p.statements.is_empty());
}
