//! In-memory bookkeeping of multipart uploads: an upload is created, parts
//! are added to it under their part numbers (a later part replaces an
//! earlier one with the same number), and it is either completed, when its
//! parts are numbered 1, 2, ..., n, or aborted.
use vstd::prelude::*;
use crate::error::Error;
use crate::outside::{new_uuid, now_timestamp};
use crate::text::{push_str, str_eq};

verus! {

/// Calls `<serde_json::Value as Clone>::clone`, which gives an equal value.
pub assume_specification [<serde_json::Value as Clone>::clone](v: &serde_json::Value) -> (r: serde_json::Value)
    ensures
        r == *v,
;

#[verifier::external_type_specification]
#[verifier::external_body]
pub struct ExJsonValue(serde_json::Value);

/// An upload in progress.  `created_at` is the UNIX time, in seconds, at
/// which it was created.
pub struct MultipartUpload {
    pub upload_id: String,
    pub bucket: String,
    pub key: String,
    pub created_at: i64,
    pub owner: String,
    pub content_type: Option<String>,
    pub metadata: Option<serde_json::Value>,
}

impl MultipartUpload {
    /// A copy of the upload.
    pub fn duplicate(&self) -> (r: Self)
        ensures
            r == *self,
    {
        MultipartUpload {
            upload_id: self.upload_id.clone(),
            bucket: self.bucket.clone(),
            key: self.key.clone(),
            created_at: self.created_at,
            owner: self.owner.clone(),
            content_type: match &self.content_type {
                Some(c) => Some(c.clone()),
                None => None,
            },
            metadata: match &self.metadata {
                Some(m) => Some(m.clone()),
                None => None,
            },
        }
    }
}

/// One uploaded part: its number, where its data is stored, its size and ETag.
pub struct UploadPart {
    pub part_number: u32,
    pub object_hash: String,
    pub size: u64,
    pub etag: String,
}

impl UploadPart {
    /// A copy of the part.
    pub fn duplicate(&self) -> (r: Self)
        ensures
            r == *self,
    {
        UploadPart {
            part_number: self.part_number,
            object_hash: self.object_hash.clone(),
            size: self.size,
            etag: self.etag.clone(),
        }
    }
}

/// Whether the part numbers increase strictly along `s`.
pub open spec fn sorted_parts(s: Seq<UploadPart>) -> bool {
    forall|i: int, j: int| 0 <= i < j < s.len() ==> s[i].part_number < s[j].part_number
}

/// Whether `s` holds a part numbered `n`.
pub open spec fn has_part(s: Seq<UploadPart>, n: u32) -> bool {
    exists|i: int| 0 <= i < s.len() && s[i].part_number == n
}

/// The parts of `s` by part number.
pub open spec fn part_map(s: Seq<UploadPart>) -> Map<u32, UploadPart> {
    Map::new(
        |n: u32| has_part(s, n),
        |n: u32| s[choose|i: int| 0 <= i < s.len() && s[i].part_number == n],
    )
}

/// Whether the parts are numbered 1, 2, ..., in order, as completion requires.
pub open spec fn numbered_in_sequence(s: Seq<UploadPart>) -> bool {
    forall|i: int| 0 <= i < s.len() ==> s[i].part_number == i + 1
}

struct UploadEntry {
    upload: MultipartUpload,
    parts: Vec<UploadPart>,
}

/// The uploads in progress and their parts.
pub struct MultipartUploadManager {
    entries: Vec<UploadEntry>,
}

/// Whether entry `i` holds the upload `id`.
spec fn holds(es: Seq<UploadEntry>, i: int, id: Seq<char>) -> bool {
    0 <= i < es.len() && es[i].upload.upload_id@ == id
}

proof fn lemma_part_map_at(s: Seq<UploadPart>, i: int)
    requires
        sorted_parts(s),
        0 <= i < s.len(),
    ensures
        part_map(s).contains_key(s[i].part_number),
        part_map(s)[s[i].part_number] == s[i],
{
    let n = s[i].part_number;
    assert(has_part(s, n));
    let j = choose|j: int| 0 <= j < s.len() && s[j].part_number == n;
    if j != i {
        if j < i {
            assert(s[j].part_number < s[i].part_number);
        } else {
            assert(s[i].part_number < s[j].part_number);
        }
    }
}

proof fn lemma_part_map_update(s: Seq<UploadPart>, j: int, p: UploadPart)
    requires
        sorted_parts(s),
        0 <= j < s.len(),
        s[j].part_number == p.part_number,
    ensures
        sorted_parts(s.update(j, p)),
        part_map(s.update(j, p)) == part_map(s).insert(p.part_number, p),
{
    let t = s.update(j, p);
    assert(sorted_parts(t));
    assert forall|n: u32| #[trigger] part_map(t).contains_key(n) == part_map(s).insert(p.part_number, p).contains_key(n) by {
        if has_part(s, n) {
            let i = choose|i: int| 0 <= i < s.len() && s[i].part_number == n;
            assert(t[i].part_number == n);
        }
        if has_part(t, n) {
            let i = choose|i: int| 0 <= i < t.len() && t[i].part_number == n;
            assert(s[i].part_number == n);
        }
    }
    assert forall|n: u32| #[trigger] part_map(t).contains_key(n) implies part_map(t)[n] == part_map(s).insert(p.part_number, p)[n] by {
        let i = choose|i: int| 0 <= i < t.len() && t[i].part_number == n;
        lemma_part_map_at(t, i);
        if i != j {
            lemma_part_map_at(s, i);
        }
    }
    assert(part_map(t) =~= part_map(s).insert(p.part_number, p));
}

proof fn lemma_part_map_insert(s: Seq<UploadPart>, j: int, p: UploadPart)
    requires
        sorted_parts(s),
        0 <= j <= s.len(),
        forall|k: int| 0 <= k < j ==> s[k].part_number < p.part_number,
        forall|k: int| j <= k < s.len() ==> s[k].part_number > p.part_number,
    ensures
        sorted_parts(s.insert(j, p)),
        part_map(s.insert(j, p)) == part_map(s).insert(p.part_number, p),
{
    let t = s.insert(j, p);
    assert forall|a: int, b: int| 0 <= a < b < t.len() implies t[a].part_number < t[b].part_number by {
        if a < j && b > j {
            assert(t[b] == s[b - 1]);
        } else if b > j {
            assert(t[b] == s[b - 1]);
            assert(t[a] == s[a - 1] || a == j);
        }
    }
    assert forall|n: u32| #[trigger] part_map(t).contains_key(n) == part_map(s).insert(p.part_number, p).contains_key(n) by {
        if has_part(s, n) {
            let i = choose|i: int| 0 <= i < s.len() && s[i].part_number == n;
            if i < j {
                assert(t[i].part_number == n);
            } else {
                assert(t[i + 1].part_number == n);
            }
        }
        if has_part(t, n) && n != p.part_number {
            let i = choose|i: int| 0 <= i < t.len() && t[i].part_number == n;
            if i < j {
                assert(s[i].part_number == n);
            } else {
                assert(i != j);
                assert(s[i - 1].part_number == n);
            }
        }
        if n == p.part_number {
            assert(t[j].part_number == n);
        }
    }
    assert forall|n: u32| #[trigger] part_map(t).contains_key(n) implies part_map(t)[n] == part_map(s).insert(p.part_number, p)[n] by {
        let i = choose|i: int| 0 <= i < t.len() && t[i].part_number == n;
        lemma_part_map_at(t, i);
        if i < j {
            lemma_part_map_at(s, i);
        } else if i > j {
            lemma_part_map_at(s, i - 1);
        }
    }
    assert(part_map(t) =~= part_map(s).insert(p.part_number, p));
}

impl MultipartUploadManager {
    /// Whether the bookkeeping is consistent: one entry per upload id, and
    /// the parts of each upload kept in increasing part-number order.
    pub closed spec fn wf(&self) -> bool {
        &&& forall|i: int, j: int|
            0 <= i < j < self.entries@.len() ==> self.entries@[i].upload.upload_id@
                != self.entries@[j].upload.upload_id@
        &&& forall|i: int| 0 <= i < self.entries@.len() ==> sorted_parts(#[trigger] self.entries@[i].parts@)
    }

    /// The upload with id `id`, if there is one in progress.
    pub closed spec fn upload_of(&self, id: Seq<char>) -> Option<MultipartUpload> {
        if exists|i: int| holds(self.entries@, i, id) {
            Some(self.entries@[choose|i: int| holds(self.entries@, i, id)].upload)
        } else {
            None
        }
    }

    /// The parts of upload `id`, in increasing part-number order (empty if
    /// there is no such upload).
    pub closed spec fn parts_of(&self, id: Seq<char>) -> Seq<UploadPart> {
        if exists|i: int| holds(self.entries@, i, id) {
            self.entries@[choose|i: int| holds(self.entries@, i, id)].parts@
        } else {
            Seq::<UploadPart>::empty()
        }
    }

    /// The uploads in progress keep their parts in increasing part-number order.
    pub proof fn lemma_parts_sorted(&self, id: Seq<char>)
        requires
            self.wf(),
        ensures
            sorted_parts(self.parts_of(id)),
    {
        if exists|i: int| holds(self.entries@, i, id) {
            let i = choose|i: int| holds(self.entries@, i, id);
            assert(sorted_parts(self.entries@[i].parts@));
        }
    }

    proof fn lemma_at(&self, i: int)
        requires
            self.wf(),
            0 <= i < self.entries@.len(),
        ensures
            self.upload_of(self.entries@[i].upload.upload_id@) == Some(self.entries@[i].upload),
            self.parts_of(self.entries@[i].upload.upload_id@) == self.entries@[i].parts@,
    {
        let id = self.entries@[i].upload.upload_id@;
        assert(holds(self.entries@, i, id));
        let j = choose|j: int| holds(self.entries@, j, id);
        if j != i {
            if j < i {
                assert(self.entries@[j].upload.upload_id@ != self.entries@[i].upload.upload_id@);
            } else {
                assert(self.entries@[i].upload.upload_id@ != self.entries@[j].upload.upload_id@);
            }
        }
    }

    /// No upload in progress.
    pub fn new() -> (r: Self)
        ensures
            r.wf(),
            forall|id: Seq<char>| #[trigger] r.upload_of(id) is None,
    {
        MultipartUploadManager { entries: Vec::new() }
    }

    fn find(&self, id: &str) -> (r: Option<usize>)
        requires
            self.wf(),
        ensures
            match r {
                Some(i) => holds(self.entries@, i as int, id@),
                None => forall|i: int| !holds(self.entries@, i, id@),
            },
    {
        let n = self.entries.len();
        for i in 0..n
            invariant
                n == self.entries@.len(),
                forall|k: int| 0 <= k < i ==> !holds(self.entries@, k, id@),
        {
            if str_eq(self.entries[i].upload.upload_id.as_str(), id) {
                return Some(i);
            }
        }
        None
    }

    proof fn lemma_absent(&self, id: Seq<char>)
        requires
            forall|i: int| !holds(self.entries@, i, id),
        ensures
            self.upload_of(id) is None,
            self.parts_of(id) == Seq::<UploadPart>::empty(),
    {
    }

    /// Starts a new upload of `bucket/key` for `owner`, under a fresh random id.
    pub fn create_upload(&mut self, bucket: String, key: String, owner: String) -> (r: Result<MultipartUpload, Error>)
        requires
            old(self).wf(),
        ensures
            final(self).wf(),
            r matches Ok(u) && {
                &&& u.bucket@ == bucket@
                &&& u.key@ == key@
                &&& u.owner@ == owner@
                &&& u.content_type is None
                &&& u.metadata is None
                &&& final(self).upload_of(u.upload_id@) == Some(u)
                &&& final(self).parts_of(u.upload_id@) == Seq::<UploadPart>::empty()
                &&& forall|id: Seq<char>| id != u.upload_id@ ==> {
                    &&& #[trigger] final(self).upload_of(id) == old(self).upload_of(id)
                    &&& final(self).parts_of(id) == old(self).parts_of(id)
                }
            },
    {
        let upload_id = new_uuid();
        let upload = MultipartUpload {
            upload_id,
            bucket,
            key,
            created_at: now_timestamp(),
            owner,
            content_type: None,
            metadata: None,
        };
        let result = upload.duplicate();
        let ghost old_entries = self.entries@;
        let entry = UploadEntry { upload, parts: Vec::new() };
        let idx: usize;
        let found = self.find(result.upload_id.as_str());
        match found {
            Some(i) => {
                self.entries.set(i, entry);
                idx = i;
            },
            None => {
                self.entries.push(entry);
                idx = (self.entries.len() - 1) as usize;
            },
        }
        proof {
            let id = result.upload_id@;
            assert forall|k: int| 0 <= k < self.entries@.len() && k != idx implies self.entries@[k].upload.upload_id@ != id by {
                assert(self.entries@[k] == old_entries[k]);
                if found is Some {
                    if k < idx {
                        assert(old_entries[k].upload.upload_id@ != old_entries[idx as int].upload.upload_id@);
                    } else {
                        assert(old_entries[idx as int].upload.upload_id@ != old_entries[k].upload.upload_id@);
                    }
                } else {
                    assert(!holds(old_entries, k, id));
                }
            }
            assert(self.entries@[idx as int].upload == result);
            assert forall|i: int, j: int| 0 <= i < j < self.entries@.len() implies self.entries@[i].upload.upload_id@
                != self.entries@[j].upload.upload_id@ by {
                if i != idx && j != idx {
                    assert(self.entries@[i] == old_entries[i]);
                    assert(self.entries@[j] == old_entries[j]);
                }
            }
            assert(forall|i: int| 0 <= i < self.entries@.len() && i != idx ==> self.entries@[i] == old_entries[i]);
            assert(self.wf());
            self.lemma_at(idx as int);
            assert forall|x: Seq<char>| x != id implies {
                &&& #[trigger] self.upload_of(x) == old(self).upload_of(x)
                &&& self.parts_of(x) == old(self).parts_of(x)
            } by {
                if exists|i: int| holds(old_entries, i, x) {
                    let i = choose|i: int| holds(old_entries, i, x);
                    assert(i != idx);
                    old(self).lemma_at(i);
                    assert(self.entries@[i] == old_entries[i]);
                    self.lemma_at(i);
                } else {
                    assert forall|i: int| !holds(self.entries@, i, x) by {
                        if holds(self.entries@, i, x) {
                            assert(i != idx);
                            assert(holds(old_entries, i, x));
                        }
                    }
                }
            }
        }
        Ok(result)
    }

    /// The upload with id `upload_id`, if it is in progress.
    pub fn get_upload(&self, upload_id: &str) -> (r: Option<&MultipartUpload>)
        requires
            self.wf(),
        ensures
            match r {
                Some(u) => self.upload_of(upload_id@) == Some(*u),
                None => self.upload_of(upload_id@) is None,
            },
    {
        match self.find(upload_id) {
            Some(i) => {
                proof {
                    self.lemma_at(i as int);
                }
                Some(&self.entries[i].upload)
            },
            None => None,
        }
    }

    /// Records a part of upload `upload_id`, replacing any part with the same number.
    ///
    /// Fails with `UploadNotFound` when no such upload is in progress.
    pub fn add_part(&mut self, upload_id: &str, part: UploadPart) -> (r: Result<(), Error>)
        requires
            old(self).wf(),
        ensures
            final(self).wf(),
            match old(self).upload_of(upload_id@) {
                None => r matches Err(Error::UploadNotFound(s)) && s@ == upload_id@ && *final(self) == *old(self),
                Some(u) => {
                    &&& r is Ok
                    &&& final(self).upload_of(upload_id@) == Some(u)
                    &&& part_map(final(self).parts_of(upload_id@)) == part_map(old(self).parts_of(upload_id@)).insert(
                        part.part_number,
                        part,
                    )
                    &&& forall|id: Seq<char>| id != upload_id@ ==> {
                        &&& #[trigger] final(self).upload_of(id) == old(self).upload_of(id)
                        &&& final(self).parts_of(id) == old(self).parts_of(id)
                    }
                },
            },
    {
        let i = match self.find(upload_id) {
            Some(i) => i,
            None => {
                proof {
                    self.lemma_absent(upload_id@);
                }
                let mut s = String::new();
                push_str(&mut s, upload_id);
                return Err(Error::UploadNotFound(s));
            },
        };
        proof {
            self.lemma_at(i as int);
        }
        let ghost old_entries = self.entries@;
        let ghost old_parts = self.entries@[i as int].parts@;
        let mut entry = self.entries.remove(i);
        let n = entry.parts.len();
        let mut j: usize = 0;
        while j < n && entry.parts[j].part_number < part.part_number
            invariant
                n == entry.parts@.len(),
                entry.parts@ == old_parts,
                j <= n,
                forall|k: int| 0 <= k < j ==> entry.parts@[k].part_number < part.part_number,
            decreases n - j,
        {
            j = j + 1;
        }
        assert(sorted_parts(old_parts)) by {
            assert(sorted_parts(old_entries[i as int].parts@));
        }
        let ghost pv = part;
        if j < n && entry.parts[j].part_number == part.part_number {
            proof {
                lemma_part_map_update(old_parts, j as int, pv);
            }
            entry.parts.set(j, part);
        } else {
            proof {
                assert forall|k: int| j <= k < old_parts.len() implies old_parts[k].part_number > pv.part_number by {
                    if k > j {
                        assert(old_parts[j as int].part_number < old_parts[k].part_number);
                    }
                }
                lemma_part_map_insert(old_parts, j as int, pv);
            }
            entry.parts.insert(j, part);
        }
        self.entries.insert(i, entry);
        proof {
            assert(self.entries@ == old_entries.update(i as int, self.entries@[i as int]));
            assert forall|a: int, b: int| 0 <= a < b < self.entries@.len() implies self.entries@[a].upload.upload_id@
                != self.entries@[b].upload.upload_id@ by {
                assert(self.entries@[a].upload == old_entries[a].upload);
                assert(self.entries@[b].upload == old_entries[b].upload);
            }
            assert forall|a: int| 0 <= a < self.entries@.len() implies sorted_parts(#[trigger] self.entries@[a].parts@) by {
                if a != i {
                    assert(self.entries@[a] == old_entries[a]);
                }
            }
            assert(self.wf());
            self.lemma_at(i as int);
            assert forall|x: Seq<char>| x != upload_id@ implies {
                &&& #[trigger] self.upload_of(x) == old(self).upload_of(x)
                &&& self.parts_of(x) == old(self).parts_of(x)
            } by {
                if exists|k: int| holds(old_entries, k, x) {
                    let k = choose|k: int| holds(old_entries, k, x);
                    assert(k != i);
                    old(self).lemma_at(k);
                    assert(self.entries@[k] == old_entries[k]);
                    self.lemma_at(k);
                } else {
                    assert forall|k: int| !holds(self.entries@, k, x) by {
                        if holds(self.entries@, k, x) {
                            assert(self.entries@[k].upload == old_entries[k].upload);
                            assert(holds(old_entries, k, x));
                        }
                    }
                }
            }
        }
        Ok(())
    }

    /// The parts of upload `upload_id`, in increasing part-number order.
    ///
    /// Fails with `UploadNotFound` when no such upload is in progress.
    pub fn get_parts(&self, upload_id: &str) -> (r: Result<Vec<UploadPart>, Error>)
        requires
            self.wf(),
        ensures
            match self.upload_of(upload_id@) {
                None => r matches Err(Error::UploadNotFound(s)) && s@ == upload_id@,
                Some(_) => r matches Ok(v) && v@ == self.parts_of(upload_id@),
            },
    {
        let i = match self.find(upload_id) {
            Some(i) => i,
            None => {
                let mut s = String::new();
                push_str(&mut s, upload_id);
                return Err(Error::UploadNotFound(s));
            },
        };
        proof {
            self.lemma_at(i as int);
        }
        let parts = &self.entries[i].parts;
        let n = parts.len();
        let mut out: Vec<UploadPart> = Vec::new();
        for k in 0..n
            invariant
                n == parts@.len(),
                out@ == parts@.take(k as int),
        {
            out.push(parts[k].duplicate());
            assert(parts@.take(k + 1) =~= parts@.take(k as int).push(parts@[k as int]));
        }
        assert(parts@.take(n as int) =~= parts@);
        Ok(out)
    }

    fn remove_entry(&mut self, i: usize)
        requires
            old(self).wf(),
            i < old(self).entries@.len(),
        ensures
            final(self).wf(),
            final(self).upload_of(old(self).entries@[i as int].upload.upload_id@) is None,
            forall|id: Seq<char>| id != old(self).entries@[i as int].upload.upload_id@ ==> {
                &&& #[trigger] final(self).upload_of(id) == old(self).upload_of(id)
                &&& final(self).parts_of(id) == old(self).parts_of(id)
            },
    {
        let ghost old_entries = self.entries@;
        let ghost rid = old_entries[i as int].upload.upload_id@;
        let _ = self.entries.remove(i);
        proof {
            assert(self.entries@ == old_entries.remove(i as int));
            assert forall|a: int, b: int| 0 <= a < b < self.entries@.len() implies self.entries@[a].upload.upload_id@
                != self.entries@[b].upload.upload_id@ by {
                let oa = if a < i { a } else { a + 1 };
                let ob = if b < i { b } else { b + 1 };
                assert(self.entries@[a] == old_entries[oa]);
                assert(self.entries@[b] == old_entries[ob]);
            }
            assert forall|a: int| 0 <= a < self.entries@.len() implies sorted_parts(#[trigger] self.entries@[a].parts@) by {
                let oa = if a < i { a } else { a + 1 };
                assert(self.entries@[a] == old_entries[oa]);
            }
            assert forall|k: int| !holds(self.entries@, k, rid) by {
                if holds(self.entries@, k, rid) {
                    let ok = if k < i { k } else { k + 1 };
                    assert(self.entries@[k] == old_entries[ok]);
                    assert(ok != i);
                }
            }
            assert forall|x: Seq<char>| x != rid implies {
                &&& #[trigger] self.upload_of(x) == old(self).upload_of(x)
                &&& self.parts_of(x) == old(self).parts_of(x)
            } by {
                if exists|k: int| holds(old_entries, k, x) {
                    let k = choose|k: int| holds(old_entries, k, x);
                    assert(k != i);
                    old(self).lemma_at(k);
                    let nk = if k < i { k } else { k - 1 };
                    assert(self.entries@[nk] == old_entries[k]);
                    self.lemma_at(nk);
                } else {
                    assert forall|k: int| !holds(self.entries@, k, x) by {
                        if holds(self.entries@, k, x) {
                            let ok = if k < i { k } else { k + 1 };
                            assert(self.entries@[k] == old_entries[ok]);
                            assert(holds(old_entries, ok, x));
                        }
                    }
                }
            }
        }
    }

    /// Completes upload `upload_id`: hands back its parts, in part-number
    /// order, and forgets the upload.
    ///
    /// Fails with `UploadNotFound` when no such upload is in progress, and
    /// with `InvalidPartOrder` when its parts are not numbered 1, 2, ..., n;
    /// a failed completion changes nothing.
    pub fn complete_upload(&mut self, upload_id: &str) -> (r: Result<Vec<UploadPart>, Error>)
        requires
            old(self).wf(),
        ensures
            final(self).wf(),
            match old(self).upload_of(upload_id@) {
                None => r matches Err(Error::UploadNotFound(s)) && s@ == upload_id@ && *final(self) == *old(self),
                Some(_) => if numbered_in_sequence(old(self).parts_of(upload_id@)) {
                    &&& r matches Ok(v) && v@ == old(self).parts_of(upload_id@)
                    &&& final(self).upload_of(upload_id@) is None
                    &&& forall|id: Seq<char>| id != upload_id@ ==> {
                        &&& #[trigger] final(self).upload_of(id) == old(self).upload_of(id)
                        &&& final(self).parts_of(id) == old(self).parts_of(id)
                    }
                } else {
                    r matches Err(Error::InvalidPartOrder) && *final(self) == *old(self)
                },
            },
    {
        let parts = match self.get_parts(upload_id) {
            Ok(p) => p,
            Err(e) => return Err(e),
        };
        let n = parts.len();
        for k in 0..n
            invariant
                n == parts@.len(),
                *self == *old(self),
                self.wf(),
                parts@ == self.parts_of(upload_id@),
                forall|j: int| 0 <= j < k ==> parts@[j].part_number == j + 1,
        {
            if parts[k].part_number as u64 != (k as u64) + 1 {
                assert(!numbered_in_sequence(parts@));
                return Err(Error::InvalidPartOrder);
            }
        }
        let i = match self.find(upload_id) {
            Some(i) => i,
            None => return Ok(parts),
        };
        self.remove_entry(i);
        Ok(parts)
    }

    /// Aborts upload `upload_id`, forgetting it and its parts.
    ///
    /// Fails with `UploadNotFound` when no such upload is in progress.
    pub fn abort_upload(&mut self, upload_id: &str) -> (r: Result<(), Error>)
        requires
            old(self).wf(),
        ensures
            final(self).wf(),
            match old(self).upload_of(upload_id@) {
                None => r matches Err(Error::UploadNotFound(s)) && s@ == upload_id@ && *final(self) == *old(self),
                Some(_) => {
                    &&& r is Ok
                    &&& final(self).upload_of(upload_id@) is None
                    &&& forall|id: Seq<char>| id != upload_id@ ==> {
                        &&& #[trigger] final(self).upload_of(id) == old(self).upload_of(id)
                        &&& final(self).parts_of(id) == old(self).parts_of(id)
                    }
                },
            },
    {
        match self.find(upload_id) {
            Some(i) => {
                proof {
                    self.lemma_at(i as int);
                }
                self.remove_entry(i);
                Ok(())
            },
            None => {
                proof {
                    self.lemma_absent(upload_id@);
                }
                let mut s = String::new();
                push_str(&mut s, upload_id);
                Err(Error::UploadNotFound(s))
            },
        }
    }

    /// The uploads in progress for `bucket`, each once.
    pub fn list_uploads(&self, bucket: &str) -> (r: Vec<MultipartUpload>)
        requires
            self.wf(),
        ensures
            forall|i: int| 0 <= i < r@.len() ==> {
                &&& (#[trigger] r@[i]).bucket@ == bucket@
                &&& self.upload_of(r@[i].upload_id@) == Some(r@[i])
            },
            forall|i: int, j: int| 0 <= i < j < r@.len() ==> r@[i].upload_id@ != r@[j].upload_id@,
            forall|id: Seq<char>| #[trigger] self.upload_of(id) matches Some(u) && u.bucket@ == bucket@ ==> exists|i: int|
                0 <= i < r@.len() && r@[i].upload_id@ == id,
    {
        let n = self.entries.len();
        let mut out: Vec<MultipartUpload> = Vec::new();
        let ghost mut from: Seq<int> = Seq::empty();
        for k in 0..n
            invariant
                n == self.entries@.len(),
                self.wf(),
                out@.len() == from.len(),
                forall|a: int| 0 <= a < from.len() ==> 0 <= #[trigger] from[a] < k,
                forall|a: int, b: int| 0 <= a < b < from.len() ==> from[a] < from[b],
                forall|a: int| 0 <= a < out@.len() ==> #[trigger] out@[a] == self.entries@[from[a]].upload,
                forall|a: int| 0 <= a < out@.len() ==> (#[trigger] out@[a]).bucket@ == bucket@,
                forall|e: int| 0 <= e < k && self.entries@[e].upload.bucket@ == bucket@ ==> exists|a: int|
                    0 <= a < from.len() && from[a] == e,
        {
            let ghost old_from = from;
            if str_eq(self.entries[k].upload.bucket.as_str(), bucket) {
                out.push(self.entries[k].upload.duplicate());
                proof {
                    from = from.push(k as int);
                    assert(from[from.len() - 1] == k);
                }
            }
            assert forall|e: int| 0 <= e < k + 1 && self.entries@[e].upload.bucket@ == bucket@ implies exists|a: int|
                0 <= a < from.len() && from[a] == e by {
                if e < k {
                    let a = choose|a: int| 0 <= a < old_from.len() && old_from[a] == e;
                    assert(from[a] == e);
                } else {
                    assert(from[from.len() - 1] == k);
                }
            }
        }
        proof {
            assert forall|i: int| 0 <= i < out@.len() implies {
                &&& (#[trigger] out@[i]).bucket@ == bucket@
                &&& self.upload_of(out@[i].upload_id@) == Some(out@[i])
            } by {
                self.lemma_at(from[i]);
            }
            assert forall|i: int, j: int| 0 <= i < j < out@.len() implies out@[i].upload_id@ != out@[j].upload_id@ by {
                assert(from[i] < from[j]);
                assert(out@[i] == self.entries@[from[i]].upload);
                assert(out@[j] == self.entries@[from[j]].upload);
            }
            assert forall|id: Seq<char>| #[trigger] self.upload_of(id) matches Some(u) && u.bucket@ == bucket@ implies exists|i: int|
                0 <= i < out@.len() && out@[i].upload_id@ == id by {
                let e = choose|e: int| holds(self.entries@, e, id);
                assert(self.entries@[e].upload.bucket@ == bucket@);
                let a = choose|a: int| 0 <= a < from.len() && from[a] == e;
                assert(out@[a] == self.entries@[e].upload);
            }
        }
        out
    }
}

// ---------------------------------------------------------------------------
// Laws
// ---------------------------------------------------------------------------

proof fn lemma_sorted_floor(s: Seq<UploadPart>, i: int)
    requires
        sorted_parts(s),
        0 <= i < s.len(),
    ensures
        s[i].part_number >= s[0].part_number + i,
        s[s.len() - 1].part_number >= s[i].part_number + (s.len() - 1 - i),
    decreases i,
{
    if i > 0 {
        lemma_sorted_floor(s, i - 1);
        assert(s[i - 1].part_number < s[i].part_number);
    }
    lemma_sorted_ceiling(s, i);
}

proof fn lemma_sorted_ceiling(s: Seq<UploadPart>, i: int)
    requires
        sorted_parts(s),
        0 <= i < s.len(),
    ensures
        s[s.len() - 1].part_number >= s[i].part_number + (s.len() - 1 - i),
    decreases s.len() - i,
{
    if i < s.len() - 1 {
        lemma_sorted_ceiling(s, i + 1);
        assert(s[i].part_number < s[i + 1].part_number);
    }
}

/// An upload whose part numbers are exactly 1, 2, ..., n (whatever order
/// they were added in) has its parts numbered in sequence, so completing it
/// succeeds; and conversely, parts numbered in sequence use exactly the
/// numbers 1 to n.
pub proof fn law_complete_accepts_exactly_consecutive_numbers(m: MultipartUploadManager, id: Seq<char>)
    requires
        m.wf(),
    ensures
        numbered_in_sequence(m.parts_of(id)) <==> forall|k: u32| #[trigger] part_map(m.parts_of(id)).contains_key(k)
            <==> 1 <= k <= m.parts_of(id).len(),
{
    let s = m.parts_of(id);
    m.lemma_parts_sorted(id);
    let consecutive = forall|k: u32| #[trigger] part_map(s).contains_key(k) <==> 1 <= k <= s.len();
    if numbered_in_sequence(s) {
        assert forall|k: u32| #[trigger] part_map(s).contains_key(k) <==> 1 <= k <= s.len() by {
            if 1 <= k <= s.len() {
                assert(s[k - 1].part_number == k);
                assert(has_part(s, k));
            }
            if has_part(s, k) {
                let i = choose|i: int| 0 <= i < s.len() && s[i].part_number == k;
                assert(s[i].part_number == i + 1);
            }
        }
    }
    if consecutive {
        assert forall|i: int| 0 <= i < s.len() implies s[i].part_number == i + 1 by {
            lemma_sorted_floor(s, i);
            lemma_part_map_at(s, 0);
            lemma_part_map_at(s, s.len() - 1);
            assert(part_map(s).contains_key(s[0].part_number));
            assert(part_map(s).contains_key(s[s.len() - 1].part_number));
        }
    }
}

/// Adding a part and then reading the parts back gives the part under its
/// number.
pub proof fn law_added_part_is_listed(before: MultipartUploadManager, after: MultipartUploadManager, id: Seq<char>, part: UploadPart)
    requires
        before.wf(),
        after.wf(),
        before.upload_of(id) is Some,
        part_map(after.parts_of(id)) == part_map(before.parts_of(id)).insert(part.part_number, part),
    ensures
        has_part(after.parts_of(id), part.part_number),
        exists|i: int| 0 <= i < after.parts_of(id).len() && after.parts_of(id)[i] == part,
{
    let s = after.parts_of(id);
    after.lemma_parts_sorted(id);
    assert(part_map(s).contains_key(part.part_number));
    let i = choose|i: int| 0 <= i < s.len() && s[i].part_number == part.part_number;
    lemma_part_map_at(s, i);
}

} // verus!
