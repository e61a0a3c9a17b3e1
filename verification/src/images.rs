//! Content-addressed image blob store.
//!
//! One blob per unique content hash: a save for a hash that is already held
//! changes nothing, so re-captures of identical image bytes never rewrite or
//! duplicate a blob. The store tracks which blobs exist and what each holds;
//! the caller owes an actual disk write exactly when a save reports one.

use vstd::prelude::*;
use crate::path::image_path_for_hash;
use crate::text::str_eq;

verus! {

/// A content-addressed blob store keyed by content hash.
pub struct ImageStore {
    base_dir: String,
    hashes: Vec<String>,
    blobs: Vec<Vec<u8>>,
}

/// What a blob store holds after saving `bytes` under `hash`: unchanged when
/// the hash is already present, extended by the new blob otherwise.
pub open spec fn saved_blobs(
    m: Seq<(Seq<char>, Seq<u8>)>,
    hash: Seq<char>,
    bytes: Seq<u8>,
) -> Seq<(Seq<char>, Seq<u8>)> {
    if exists|i: int| 0 <= i < m.len() && (#[trigger] m[i]).0 == hash {
        m
    } else {
        m.push((hash, bytes))
    }
}

impl ImageStore {
    /// The blobs held, as pairs of hash and content, in save order.
    pub closed spec fn blobs_model(self) -> Seq<(Seq<char>, Seq<u8>)> {
        Seq::new(self.hashes@.len(), |i: int| (self.hashes@[i]@, self.blobs@[i]@))
    }

    /// The directory the blobs live under.
    pub closed spec fn base_dir_spec(self) -> Seq<char> {
        self.base_dir@
    }

    /// One hash per blob, and as many hashes as blobs.
    pub closed spec fn wf(self) -> bool {
        &&& self.hashes@.len() == self.blobs@.len()
        &&& forall|i: int, j: int|
            0 <= i < j < self.hashes@.len() ==> (#[trigger] self.hashes@[i])@ != (
            #[trigger] self.hashes@[j])@
    }

    /// Whether a blob for the hash is held.
    pub open spec fn has_hash(self, hash: Seq<char>) -> bool {
        exists|i: int|
            0 <= i < self.blobs_model().len() && (#[trigger] self.blobs_model()[i]).0 == hash
    }

    /// An empty store over a data directory.
    pub fn new(base_dir: String) -> (r: Self)
        ensures
            r.wf(),
            r.blobs_model() == Seq::<(Seq<char>, Seq<u8>)>::empty(),
            r.base_dir_spec() == base_dir@,
    {
        let r = ImageStore { base_dir, hashes: Vec::new(), blobs: Vec::new() };
        proof {
            assert(r.blobs_model() =~= Seq::<(Seq<char>, Seq<u8>)>::empty());
        }
        r
    }

    fn find_hash(&self, hash: &str) -> (r: Option<usize>)
        requires
            self.wf(),
        ensures
            r is Some <==> self.has_hash(hash@),
            (r matches Some(i) ==> 0 <= i < self.blobs_model().len()
                && self.blobs_model()[i as int].0 == hash@),
    {
        let mut i: usize = 0;
        while i < self.hashes.len()
            invariant
                i <= self.hashes@.len(),
                self.hashes@.len() == self.blobs_model().len(),
                forall|k: int| 0 <= k < i ==> (#[trigger] self.blobs_model()[k]).0 != hash@,
            decreases self.hashes@.len() - i,
        {
            if str_eq(self.hashes[i].as_str(), hash) {
                proof {
                    assert(self.blobs_model()[i as int].0 == hash@);
                }
                return Some(i);
            }
            i = i + 1;
        }
        None
    }

    /// Saves image bytes under their content hash and names the blob's path.
    /// Idempotent: a hash already held leaves the store exactly as it was.
    /// The flag reports whether a new blob was recorded — the caller owes a
    /// disk write at the returned path exactly then.
    pub fn save_image_bytes(&mut self, hash: &str, bytes: &Vec<u8>) -> (r: (String, bool))
        requires
            old(self).wf(),
        ensures
            final(self).wf(),
            final(self).blobs_model() == saved_blobs(old(self).blobs_model(), hash@, bytes@),
            final(self).base_dir_spec() == old(self).base_dir_spec(),
            r.0@ == old(self).base_dir_spec() + "/clipboard_images"@ + "/image_"@ + hash@
                + ".bmp"@,
            r.1 == !old(self).has_hash(hash@),
            old(self).has_hash(hash@) ==> final(self).blobs_model() == old(self).blobs_model(),
    {
        let path = image_path_for_hash(self.base_dir.as_str(), hash);
        match self.find_hash(hash) {
            Some(_) => (path, false),
            None => {
                let mut h = String::new();
                h.append(hash);
                let mut b: Vec<u8> = Vec::new();
                let mut i: usize = 0;
                while i < bytes.len()
                    invariant
                        i <= bytes@.len(),
                        b@ == bytes@.subrange(0, i as int),
                    decreases bytes@.len() - i,
                {
                    b.push(bytes[i]);
                    i = i + 1;
                    proof {
                        assert(b@ =~= bytes@.subrange(0, i as int));
                    }
                }
                proof {
                    assert(bytes@.subrange(0, bytes@.len() as int) =~= bytes@);
                }
                proof {
                    assert(h@ =~= hash@);
                }
                self.hashes.push(h);
                self.blobs.push(b);
                proof {
                    assert(self.blobs_model() =~= old(self).blobs_model().push((hash@, bytes@)));
                    let n = self.hashes@.len();
                    assert forall|i: int, j: int| 0 <= i < j < n implies (
                    #[trigger] self.hashes@[i])@ != (#[trigger] self.hashes@[j])@ by {
                        if j == n - 1 {
                            assert(old(self).blobs_model()[i].0 == old(self).hashes@[i]@);
                            assert(!old(self).has_hash(hash@));
                        } else {
                            assert(old(self).hashes@[i]@ != old(self).hashes@[j]@);
                        }
                    }
                }
                (path, true)
            },
        }
    }

    /// The number of blobs held.
    pub fn blob_count(&self) -> (r: usize)
        requires
            self.wf(),
        ensures
            r == self.blobs_model().len(),
    {
        self.hashes.len()
    }
}

/// Saving the same bytes under the same hash twice holds exactly what one
/// save holds: the second save never overwrites or duplicates the blob.
pub proof fn lemma_save_idempotent(m: Seq<(Seq<char>, Seq<u8>)>, hash: Seq<char>, bytes: Seq<u8>)
    ensures
        saved_blobs(saved_blobs(m, hash, bytes), hash, bytes) == saved_blobs(m, hash, bytes),
{
    let m1 = saved_blobs(m, hash, bytes);
    if exists|i: int| 0 <= i < m.len() && (#[trigger] m[i]).0 == hash {
        assert(m1 == m);
    } else {
        assert(m1 == m.push((hash, bytes)));
        assert(m1[m.len() as int].0 == hash);
    }
}

} // verus!
