//! Records of the metadata catalogue, and the query by which objects are
//! searched with a filter.
use vstd::prelude::*;
use vstd::string::*;
use crate::text::{join_pieces, join_with, push_str};

verus! {

/// The access control list stored with a bucket.
pub struct Acl {
    pub owner: String,
    pub grants: Vec<Grant>,
}

/// One permission of a bucket's access control list.
pub struct Grant {
    pub grantee: Grantee,
    pub permission: String,
}

/// Who a bucket grant is for.
pub struct Grantee {
    pub id: Option<String>,
    pub uri: Option<String>,
}

/// A bucket with the number and total size of its objects.
pub struct BucketMetadata {
    pub name: String,
    pub object_count: u64,
    pub total_size: u64,
}

/// One entry of the audit log.
pub struct AuditLog {
    pub id: i64,
    pub timestamp: String,
    pub method: String,
    pub path: String,
    pub status_code: i32,
    pub bucket: Option<String>,
    pub key: Option<String>,
    pub access_key: Option<String>,
    pub source_ip: Option<String>,
    pub user_agent: Option<String>,
    pub error_message: Option<String>,
    pub duration_ms: i64,
}

/// How a bucket keeps versions of its objects.
#[derive(Debug, Clone, Default)]
pub struct VersionConfig {
    pub enabled: bool,
    pub max_versions: Option<u32>,
    pub retention_days: Option<u32>,
}

/// What an object search asks for.  The two age limits are given as the
/// creation times (Unix seconds) they stand for.
pub struct SearchFilter {
    pub bucket: Option<String>,
    pub prefix: Option<String>,
    pub key_contains: Option<String>,
    pub min_size: Option<u64>,
    pub max_size: Option<u64>,
    pub content_type: Option<String>,
    pub created_before: Option<i64>,
    pub created_after: Option<i64>,
}

/// A value bound to a placeholder of a query.
pub enum SqlParam {
    Text(String),
    Int(i64),
}

/// A bound value, as the contracts see it.
pub enum ParamValue {
    Text(Seq<char>),
    Int(int),
}

/// The value a parameter binds.
pub open spec fn param_value(p: SqlParam) -> ParamValue {
    match p {
        SqlParam::Text(s) => ParamValue::Text(s@),
        SqlParam::Int(i) => ParamValue::Int(i as int),
    }
}

/// One condition with its value, when `present`.
pub open spec fn clause_if(present: bool, cond: Seq<char>, v: ParamValue) -> Seq<(Seq<char>, ParamValue)> {
    if present {
        seq![(cond, v)]
    } else {
        Seq::empty()
    }
}

/// The text is given and not empty.
pub open spec fn given_text(o: Option<String>) -> bool {
    o matches Some(s) && s@.len() > 0
}

/// The text of an optional value, empty when absent.
pub open spec fn text_of(o: Option<String>) -> Seq<char> {
    match o {
        Some(s) => s@,
        None => Seq::empty(),
    }
}

/// The conditions of a search, each with the value its placeholder binds, in
/// the order they are written: the bucket (the one given beside the filter,
/// else the filter's), the key prefix, a substring of the key, the size
/// limits, the content type, and the creation-time limits.  Empty texts ask
/// for nothing.
pub open spec fn search_clauses(f: SearchFilter, bucket: Option<String>) -> Seq<(Seq<char>, ParamValue)> {
    let b = match bucket {
        Some(b) => Some(b),
        None => f.bucket,
    };
    clause_if(b is Some, "bucket = ?"@, ParamValue::Text(text_of(b)))
        + clause_if(given_text(f.prefix), "key LIKE ?"@, ParamValue::Text(text_of(f.prefix) + "%"@))
        + clause_if(given_text(f.key_contains), "key LIKE ?"@, ParamValue::Text("%"@ + text_of(f.key_contains) + "%"@))
        + clause_if(f.min_size is Some, "size >= ?"@, ParamValue::Int((f.min_size->0 as i64) as int))
        + clause_if(f.max_size is Some, "size <= ?"@, ParamValue::Int((f.max_size->0 as i64) as int))
        + clause_if(given_text(f.content_type), "content_type LIKE ?"@, ParamValue::Text("%"@ + text_of(f.content_type) + "%"@))
        + clause_if(f.created_before is Some, "created_at <= ?"@, ParamValue::Int(f.created_before->0 as int))
        + clause_if(f.created_after is Some, "created_at >= ?"@, ParamValue::Int(f.created_after->0 as int))
}

/// The pairs of conditions and values built so far.
pub open spec fn built(conds: Seq<Vec<char>>, params: Seq<SqlParam>) -> Seq<(Seq<char>, ParamValue)> {
    Seq::new(conds.len(), |i: int| (conds[i]@, param_value(params[i])))
}

fn push_clause(
    conds: &mut Vec<Vec<char>>,
    params: &mut Vec<SqlParam>,
    present: bool,
    cond: &str,
    v: SqlParam,
)
    requires
        old(conds)@.len() == old(params)@.len(),
    ensures
        final(conds)@.len() == final(params)@.len(),
        built(final(conds)@, final(params)@) == built(old(conds)@, old(params)@) + clause_if(present, cond@, param_value(v)),
{
    let ghost before = built(conds@, params@);
    if present {
        conds.push(crate::text::chars_of(cond));
        params.push(v);
        assert(built(conds@, params@) =~= before + clause_if(present, cond@, param_value(v)));
    } else {
        assert(before + clause_if(present, cond@, param_value(v)) =~= before);
    }
}

fn text_param(a: &str, b: &str, c: &str) -> (r: SqlParam)
    ensures
        r matches SqlParam::Text(s) && s@ == a@ + b@ + c@,
{
    let mut s = String::new();
    push_str(&mut s, a);
    push_str(&mut s, b);
    push_str(&mut s, c);
    SqlParam::Text(s)
}

fn opt_text(o: &Option<String>) -> (r: &str)
    ensures
        r@ == text_of(*o),
{
    match o {
        Some(s) => {
            let t: &str = s.as_str();
            t
        },
        None => {
            let t: &str = "";
            proof {
                reveal_strlit("");
            }
            t
        },
    }
}

/// The `WHERE` clause of an object search and the values of its
/// placeholders: the conditions of `search_clauses`, then the exclusion of
/// version entries, joined with `AND`.
pub fn search_where_clause(filter: &SearchFilter, bucket: Option<String>) -> (r: (String, Vec<SqlParam>))
    ensures
        ({
            let cs = search_clauses(*filter, bucket);
            &&& r.0@ == join_with(cs.map_values(|c: (Seq<char>, ParamValue)| c.0).push("version_id IS NULL"@), " AND "@)
            &&& r.1@.len() == cs.len()
            &&& forall|i: int| 0 <= i < cs.len() ==> param_value(#[trigger] r.1@[i]) == cs[i].1
        }),
{
    let mut conds: Vec<Vec<char>> = Vec::new();
    let mut params: Vec<SqlParam> = Vec::new();
    let b = match bucket {
        Some(b) => Some(b),
        None => match &filter.bucket {
            Some(fb) => Some(fb.clone()),
            None => None,
        },
    };
    let bt = opt_text(&b);
    push_clause(&mut conds, &mut params, b.is_some(), "bucket = ?", text_param("", bt, ""));
    let p = opt_text(&filter.prefix);
    push_clause(&mut conds, &mut params, filter.prefix.is_some() && p.unicode_len() > 0, "key LIKE ?", text_param("", p, "%"));
    let kc = opt_text(&filter.key_contains);
    push_clause(&mut conds, &mut params, filter.key_contains.is_some() && kc.unicode_len() > 0, "key LIKE ?", text_param("%", kc, "%"));
    let min = match filter.min_size { Some(n) => n, None => 0 };
    push_clause(&mut conds, &mut params, filter.min_size.is_some(), "size >= ?", SqlParam::Int(#[verifier::truncate] (min as i64)));
    let max = match filter.max_size { Some(n) => n, None => 0 };
    push_clause(&mut conds, &mut params, filter.max_size.is_some(), "size <= ?", SqlParam::Int(#[verifier::truncate] (max as i64)));
    let ct = opt_text(&filter.content_type);
    push_clause(&mut conds, &mut params, filter.content_type.is_some() && ct.unicode_len() > 0, "content_type LIKE ?", text_param("%", ct, "%"));
    let before = match filter.created_before { Some(t) => t, None => 0 };
    push_clause(&mut conds, &mut params, filter.created_before.is_some(), "created_at <= ?", SqlParam::Int(before));
    let after = match filter.created_after { Some(t) => t, None => 0 };
    push_clause(&mut conds, &mut params, filter.created_after.is_some(), "created_at >= ?", SqlParam::Int(after));
    let ghost cs = search_clauses(*filter, bucket);
    proof {
        reveal_strlit("");
        assert(""@ + text_of(b) + ""@ =~= text_of(b));
    }
    assert(built(conds@, params@) =~= cs);
    let n = conds.len();
    conds.push(crate::text::chars_of("version_id IS NULL"));
    let sep = crate::text::chars_of(" AND ");
    let joined = join_pieces(conds.as_slice(), sep.as_slice());
    proof {
        let views = conds@.map_values(|v: Vec<char>| v@);
        assert(views =~= cs.map_values(|c: (Seq<char>, ParamValue)| c.0).push("version_id IS NULL"@)) by {
            assert forall|i: int| 0 <= i < cs.len() implies views[i] == cs[i].0 by {
                assert(built(conds@.take(n as int), params@)[i] == cs[i]);
            }
        }
        assert forall|i: int| 0 <= i < cs.len() implies param_value(#[trigger] params@[i]) == cs[i].1 by {
            assert(built(conds@.take(n as int), params@)[i] == cs[i]);
        }
    }
    (crate::text::string_of(joined.as_slice()), params)
}

} // verus!
