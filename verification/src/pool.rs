//! Storage pools: their configuration, their usage counters and the checks
//! made before space is allocated in one; and the directory layout of the
//! data directory.
//!
//! Paths are strings with `/` as the separator.
use vstd::prelude::*;
use vstd::string::*;
use vstd::utf8::{decode_utf8, encode_utf8, is_char_boundary};
use crate::error::Error;
use crate::text::{chars_of, push_str, str_eq};
use crate::tier::StorageTier;

verus! {

broadcast use vstd::utf8::group_utf8_lib;

/// The health of a pool.
#[derive(Debug, Clone, Copy, PartialEq, Eq, Structural)]
pub enum PoolStatus {
    Healthy,
    Degraded,
    Offline,
    Full,
}

impl PoolStatus {
    /// The status recorded under a name in a pool's metadata file; unknown
    /// names are read as healthy.
    pub fn from_name(name: &str) -> (r: Self)
        ensures
            r == (if name@ == "Healthy"@ {
                PoolStatus::Healthy
            } else if name@ == "Degraded"@ {
                PoolStatus::Degraded
            } else if name@ == "Offline"@ {
                PoolStatus::Offline
            } else if name@ == "Full"@ {
                PoolStatus::Full
            } else {
                PoolStatus::Healthy
            }),
    {
        if str_eq(name, "Healthy") {
            PoolStatus::Healthy
        } else if str_eq(name, "Degraded") {
            PoolStatus::Degraded
        } else if str_eq(name, "Offline") {
            PoolStatus::Offline
        } else if str_eq(name, "Full") {
            PoolStatus::Full
        } else {
            PoolStatus::Healthy
        }
    }

    /// The name under which the status is recorded.
    pub fn name(self) -> (r: &'static str)
        ensures
            r@ == match self {
                PoolStatus::Healthy => "Healthy"@,
                PoolStatus::Degraded => "Degraded"@,
                PoolStatus::Offline => "Offline"@,
                PoolStatus::Full => "Full"@,
            },
    {
        match self {
            PoolStatus::Healthy => "Healthy",
            PoolStatus::Degraded => "Degraded",
            PoolStatus::Offline => "Offline",
            PoolStatus::Full => "Full",
        }
    }
}

/// The default capacity of a pool: 100 GiB.
pub fn default_capacity() -> (r: u64)
    ensures
        r == 100 * 1024 * 1024 * 1024,
{
    100 * 1024 * 1024 * 1024
}

/// The default object limit of a pool.
pub fn default_max_objects() -> (r: u64)
    ensures
        r == 1_000_000,
{
    1_000_000
}

/// How a pool is configured.
pub struct PoolConfig {
    pub id: String,
    pub path: String,
    pub capacity: u64,
    pub max_objects: u64,
    pub quota_enabled: bool,
    pub tier: StorageTier,
}

impl PoolConfig {
    /// A copy of the configuration.
    pub fn duplicate(&self) -> (r: Self)
        ensures
            r == *self,
    {
        PoolConfig {
            id: self.id.clone(),
            path: self.path.clone(),
            capacity: self.capacity,
            max_objects: self.max_objects,
            quota_enabled: self.quota_enabled,
            tier: self.tier,
        }
    }
}

/// Where an object's data lives: its pool, content hash, file and size.
pub struct ObjectLocation {
    pub pool_id: String,
    pub object_hash: String,
    pub path: String,
    pub size: u64,
}

/// A storage pool: its configuration and current usage.
pub struct StoragePool {
    pub id: String,
    pub path: String,
    pub capacity: u64,
    pub used: u64,
    pub objects_count: u64,
    pub status: PoolStatus,
    pub config: PoolConfig,
}

fn owned(t: &str) -> (r: String)
    ensures
        r@ == t@,
{
    let mut s = String::new();
    push_str(&mut s, t);
    s
}

impl StoragePool {
    /// A pool as configured, with the usage its metadata file recorded
    /// (none for a new pool: empty and healthy).
    pub fn with_usage(config: PoolConfig, recorded: Option<(u64, u64, PoolStatus)>) -> (r: Self)
        ensures
            r.id == config.id,
            r.path == config.path,
            r.capacity == config.capacity,
            r.config == config,
            match recorded {
                Some(u) => r.used == u.0 && r.objects_count == u.1 && r.status == u.2,
                None => r.used == 0 && r.objects_count == 0 && r.status == PoolStatus::Healthy,
            },
    {
        let (used, objects_count, status) = match recorded {
            Some(u) => u,
            None => (0, 0, PoolStatus::Healthy),
        };
        StoragePool {
            id: config.id.clone(),
            path: config.path.clone(),
            capacity: config.capacity,
            used,
            objects_count,
            status,
            config,
        }
    }

    /// A copy of the pool.
    pub fn duplicate(&self) -> (r: Self)
        ensures
            r == *self,
    {
        StoragePool {
            id: self.id.clone(),
            path: self.path.clone(),
            capacity: self.capacity,
            used: self.used,
            objects_count: self.objects_count,
            status: self.status,
            config: self.config.duplicate(),
        }
    }

    /// Checks that an object of `size` bytes can be placed in the pool.
    ///
    /// Fails with `StorageFull` when it would exceed the capacity or the pool
    /// already holds its maximum number of objects, and with
    /// `StorageUnavailable` when the pool is not healthy (checked in that
    /// order).  The location it returns has no hash or path yet.
    pub fn allocate(&self, size: u64) -> (r: Result<ObjectLocation, Error>)
        requires
            self.used + size <= u64::MAX,
        ensures
            if self.used + size > self.capacity || self.objects_count >= self.config.max_objects {
                r matches Err(Error::StorageFull(id)) && id@ == self.id@
            } else if self.status != PoolStatus::Healthy {
                r matches Err(Error::StorageUnavailable(id)) && id@ == self.id@
            } else {
                r matches Ok(loc) && loc.pool_id@ == self.id@ && loc.object_hash@.len() == 0 && loc.path@.len() == 0
                    && loc.size == size
            },
    {
        if self.used + size > self.capacity {
            return Err(Error::StorageFull(self.id.clone()));
        }
        if self.objects_count >= self.config.max_objects {
            return Err(Error::StorageFull(self.id.clone()));
        }
        if self.status != PoolStatus::Healthy {
            return Err(Error::StorageUnavailable(self.id.clone()));
        }
        Ok(ObjectLocation { pool_id: self.id.clone(), object_hash: String::new(), path: String::new(), size })
    }

    /// The bytes used and the capacity.
    pub fn get_usage(&self) -> (r: (u64, u64))
        ensures
            r == (self.used, self.capacity),
    {
        (self.used, self.capacity)
    }

    /// Accounts for an object of `size` bytes written to the pool.
    pub fn record_write(&mut self, size: u64)
        requires
            old(self).used + size <= u64::MAX,
            old(self).objects_count < u64::MAX,
        ensures
            final(self).used == old(self).used + size,
            final(self).objects_count == old(self).objects_count + 1,
            final(self).id == old(self).id,
            final(self).capacity == old(self).capacity,
            final(self).status == old(self).status,
            final(self).config == old(self).config,
            final(self).path == old(self).path,
    {
        self.used = self.used + size;
        self.objects_count = self.objects_count + 1;
    }

    /// Accounts for an object of `size` bytes removed from the pool; the
    /// counters do not go below zero.
    pub fn record_delete(&mut self, size: u64)
        ensures
            final(self).used == if old(self).used >= size {
                (old(self).used - size) as u64
            } else {
                0
            },
            final(self).objects_count == if old(self).objects_count >= 1 {
                (old(self).objects_count - 1) as u64
            } else {
                0
            },
            final(self).id == old(self).id,
            final(self).capacity == old(self).capacity,
            final(self).status == old(self).status,
            final(self).config == old(self).config,
            final(self).path == old(self).path,
    {
        self.used = self.used.saturating_sub(size);
        self.objects_count = self.objects_count.saturating_sub(1);
    }
}

impl StoragePool {
    /// The directory of an object stored in the pool: under the pool's
    /// `objects` directory, in the subdirectory named by the first two bytes
    /// of its hash.
    ///
    /// The hash must have a character boundary at its second byte (a hex
    /// hash does).
    pub fn object_dir(&self, hash: &str) -> (r: String)
        requires
            encode_utf8(hash@).len() >= 2,
            is_char_boundary(encode_utf8(hash@), 2),
        ensures
            r@ == path_join(
                path_join(path_join(self.path@, "objects"@), decode_utf8(encode_utf8(hash@).subrange(0, 2))),
                hash@,
            ),
    {
        assert(hash.spec_bytes() == encode_utf8(hash@));
        let (prefix, _) = hash.split_at(2);
        assert(prefix.spec_bytes() == encode_utf8(prefix@));
        assert(decode_utf8(encode_utf8(prefix@)) == prefix@);
        let o = join_path(self.path.as_str(), "objects");
        let p = join_path(o.as_str(), prefix);
        join_path(p.as_str(), hash)
    }
}

/// Writing and then removing the same object leaves the counters as they were.
pub proof fn law_write_then_delete_restores_usage(used: u64, count: u64, size: u64)
    requires
        used + size <= u64::MAX,
        count < u64::MAX,
    ensures
        ({
            let u2 = (used + size) as u64;
            let c2 = (count + 1) as u64;
            &&& (if u2 >= size { (u2 - size) as u64 } else { 0 }) == used
            &&& (if c2 >= 1 { (c2 - 1) as u64 } else { 0 }) == count
        }),
{
}

// ---------------------------------------------------------------------------
// The data directory layout
// ---------------------------------------------------------------------------

/// `base` joined with `seg` as `Path::join` joins on Unix: an absolute
/// `seg` replaces `base`; otherwise a `/` is put between them unless `base`
/// is empty or already ends with one.
pub open spec fn path_join(base: Seq<char>, seg: Seq<char>) -> Seq<char> {
    if seg.len() > 0 && seg[0] == '/' {
        seg
    } else if base.len() == 0 || base.last() == '/' {
        base + seg
    } else {
        base + "/"@ + seg
    }
}

/// Joins two paths.
pub fn join_path(base: &str, seg: &str) -> (r: String)
    ensures
        r@ == path_join(base@, seg@),
{
    let bv = chars_of(base);
    let sv = chars_of(seg);
    if sv.len() > 0 && sv[0] == '/' {
        return owned(seg);
    }
    let mut s = owned(base);
    if !(bv.len() == 0 || bv[bv.len() - 1] == '/') {
        push_str(&mut s, "/");
    }
    push_str(&mut s, seg);
    s
}

/// The directory layout under the data directory.
pub struct StorageLayout {
    pub data_dir: String,
}

impl StorageLayout {
    /// The layout under `data_dir`.
    pub fn new(data_dir: String) -> (r: Self)
        ensures
            r.data_dir == data_dir,
    {
        StorageLayout { data_dir }
    }

    /// `<data>/pools`.
    pub open spec fn pools_dir_spec(&self) -> Seq<char> {
        path_join(self.data_dir@, "pools"@)
    }

    /// `<data>/pools/<pool>`.
    pub open spec fn pool_dir_spec(&self, pool_id: Seq<char>) -> Seq<char> {
        path_join(self.pools_dir_spec(), pool_id)
    }

    /// `<data>/pools/<pool>/objects`.
    pub open spec fn objects_dir_spec(&self, pool_id: Seq<char>) -> Seq<char> {
        path_join(self.pool_dir_spec(pool_id), "objects"@)
    }

    /// The directory of the pools.
    pub fn pools_dir(&self) -> (r: String)
        ensures
            r@ == self.pools_dir_spec(),
    {
        join_path(self.data_dir.as_str(), "pools")
    }

    /// The directory of one pool.
    pub fn pool_dir(&self, pool_id: &str) -> (r: String)
        ensures
            r@ == self.pool_dir_spec(pool_id@),
    {
        join_path(self.pools_dir().as_str(), pool_id)
    }

    /// The object directory of one pool.
    pub fn objects_dir(&self, pool_id: &str) -> (r: String)
        ensures
            r@ == self.objects_dir_spec(pool_id@),
    {
        join_path(self.pool_dir(pool_id).as_str(), "objects")
    }

    /// The directory of one object: under the object directory of its pool,
    /// in the subdirectory named by the first two bytes of its hash.
    ///
    /// The hash must have a character boundary at its second byte (a hex
    /// hash does).
    pub fn object_dir(&self, pool_id: &str, hash: &str) -> (r: String)
        requires
            encode_utf8(hash@).len() >= 2,
            is_char_boundary(encode_utf8(hash@), 2),
        ensures
            r@ == path_join(
                path_join(self.objects_dir_spec(pool_id@), decode_utf8(encode_utf8(hash@).subrange(0, 2))),
                hash@,
            ),
    {
        assert(hash.spec_bytes() == encode_utf8(hash@));
        let (prefix, _) = hash.split_at(2);
        assert(prefix.spec_bytes() == encode_utf8(prefix@));
        assert(decode_utf8(encode_utf8(prefix@)) == prefix@);
        let o = self.objects_dir(pool_id);
        let p = join_path(o.as_str(), prefix);
        join_path(p.as_str(), hash)
    }

    /// The configuration directory.
    pub fn config_dir(&self) -> (r: String)
        ensures
            r@ == path_join(self.data_dir@, "config"@),
    {
        join_path(self.data_dir.as_str(), "config")
    }
}

} // verus!
