//! ObjStor: the verified core of an S3-compatible object store.
pub mod text;
pub mod outside;
pub mod error;
pub mod sigv4;
pub mod presign;
pub mod multipart;
pub mod s3_object;
pub mod s3_xml;
pub mod s3_routes;
pub mod encryption;
pub mod tier;
pub mod pool;
pub mod scheduler;
pub mod config;
pub mod acl;
pub mod iam;
pub mod s3_error;
pub mod metadata;
pub mod ai;
pub mod admin;
pub mod pool_set;
pub mod integrity;
pub mod lifecycle;
pub mod dedup;
pub mod gateway;
pub mod bucket_ops;
pub mod dashboard;
