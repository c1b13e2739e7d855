//! The content-addressed cache: the sharded path an object lives at,
//! and a model of the store itself — an append-only collection of
//! objects keyed by content identity, where a put of an identity that
//! is already present is a no-op.

use vstd::prelude::*;

use crate::bytes::{bytes_eq, copy_bytes};
use crate::hashing::spec_identity;

verus! {

/// The relative directory all cache objects live under, as bytes:
/// `.udv/cache/`.
pub open spec fn cache_dir_prefix() -> Seq<u8> {
    seq![46u8, 117u8, 100u8, 118u8, 47u8, 99u8, 97u8, 99u8, 104u8, 101u8, 47u8]
}

/// Where an object with the given identity is stored, relative to the
/// project root: the first two hex digits name the shard directory, the
/// remaining digits name the object file.
pub open spec fn spec_object_rel_path(id: Seq<u8>) -> Seq<u8> {
    cache_dir_prefix() + id.subrange(0, 2) + seq![47u8] + id.subrange(2, id.len() as int)
}

/// Renders the sharded cache path for a 64-digit identity.
pub fn object_rel_path(id: &Vec<u8>) -> (r: Vec<u8>)
    requires
        id@.len() == 64,
    ensures
        r@ == spec_object_rel_path(id@),
{
    let mut out: Vec<u8> = Vec::new();
    out.push(46);
    out.push(117);
    out.push(100);
    out.push(118);
    out.push(47);
    out.push(99);
    out.push(97);
    out.push(99);
    out.push(104);
    out.push(101);
    out.push(47);
    out.push(id[0]);
    out.push(id[1]);
    out.push(47);
    let mut k: usize = 2;
    proof {
        assert(out@ =~= cache_dir_prefix() + id@.subrange(0, 2) + seq![47u8] + id@.subrange(
            2,
            k as int,
        ));
    }
    while k < 64
        invariant
            id@.len() == 64,
            2 <= k <= 64,
            out@ == cache_dir_prefix() + id@.subrange(0, 2) + seq![47u8] + id@.subrange(
                2,
                k as int,
            ),
        decreases 64 - k,
    {
        out.push(id[k]);
        k = k + 1;
        proof {
            assert(out@ =~= cache_dir_prefix() + id@.subrange(0, 2) + seq![47u8] + id@.subrange(
                2,
                k as int,
            ));
        }
    }
    out
}

/// One stored blob: the bytes of exactly one tracked file, keyed by the
/// content identity those bytes derive.
pub struct CacheObject {
    pub identity: Vec<u8>,
    pub data: Vec<u8>,
}

/// What a store holds after putting `data` under `id`: unchanged if the
/// identity is already present (the existing object is authoritative,
/// because the identity is content-derived), extended otherwise.
pub open spec fn store_after_put(
    m: Map<Seq<u8>, Seq<u8>>,
    id: Seq<u8>,
    data: Seq<u8>,
) -> Map<Seq<u8>, Seq<u8>> {
    if m.dom().contains(id) {
        m
    } else {
        m.insert(id, data)
    }
}

/// The map a sequence of cache objects represents.
pub open spec fn contents_of(objs: Seq<CacheObject>) -> Map<Seq<u8>, Seq<u8>>
    decreases objs.len(),
{
    if objs.len() == 0 {
        Map::empty()
    } else {
        contents_of(objs.drop_last()).insert(objs.last().identity@, objs.last().data@)
    }
}

proof fn lemma_contents_dom(objs: Seq<CacheObject>, id: Seq<u8>)
    ensures
        contents_of(objs).dom().contains(id) <==> exists|i: int|
            0 <= i < objs.len() && #[trigger] objs[i].identity@ == id,
    decreases objs.len(),
{
    if objs.len() == 0 {
    } else {
        lemma_contents_dom(objs.drop_last(), id);
        if objs.last().identity@ == id {
            assert(objs[objs.len() - 1].identity@ == id);
        } else {
            if exists|i: int| 0 <= i < objs.drop_last().len() && #[trigger] objs.drop_last()[i].identity@
                == id {
                let i = choose|i: int|
                    0 <= i < objs.drop_last().len() && #[trigger] objs.drop_last()[i].identity@
                        == id;
                assert(objs[i].identity@ == id);
            }
            if exists|i: int| 0 <= i < objs.len() && #[trigger] objs[i].identity@ == id {
                let i = choose|i: int| 0 <= i < objs.len() && #[trigger] objs[i].identity@ == id;
                assert(i < objs.len() - 1);
                assert(objs.drop_last()[i].identity@ == id);
            }
        }
    }
}

/// The content-addressed blob store, modelled as the list of objects
/// written so far.
pub struct CacheStore {
    objects: Vec<CacheObject>,
}

impl CacheStore {
    /// The mapping from content identity to stored bytes.
    pub closed spec fn contents(&self) -> Map<Seq<u8>, Seq<u8>> {
        contents_of(self.objects@)
    }

    /// How many objects the store holds.
    pub closed spec fn object_count(&self) -> nat {
        self.objects@.len()
    }

    /// Every identity is stored at most once, and each one is derived
    /// from the bytes it keys.
    pub closed spec fn wf(&self) -> bool {
        &&& forall|i: int, j: int|
            0 <= i < j < self.objects@.len() ==> #[trigger] self.objects@[i].identity@
                != #[trigger] self.objects@[j].identity@
        &&& forall|i: int|
            0 <= i < self.objects@.len() ==> #[trigger] self.objects@[i].identity@
                == spec_identity(self.objects@[i].data@)
    }

    /// An empty store.
    pub fn new() -> (s: Self)
        ensures
            s.wf(),
            s.contents() == Map::<Seq<u8>, Seq<u8>>::empty(),
            s.object_count() == 0,
    {
        CacheStore { objects: Vec::new() }
    }

    /// The number of objects held.
    pub fn len(&self) -> (n: usize)
        ensures
            n == self.object_count(),
    {
        self.objects.len()
    }

    /// True iff an object for this identity already exists.
    pub fn contains(&self, identity: &Vec<u8>) -> (r: bool)
        ensures
            r == self.contents().dom().contains(identity@),
    {
        proof {
            lemma_contents_dom(self.objects@, identity@);
        }
        let n = self.objects.len();
        let mut i: usize = 0;
        while i < n
            invariant
                n == self.objects@.len(),
                0 <= i <= n,
                forall|k: int| 0 <= k < i ==> #[trigger] self.objects@[k].identity@ != identity@,
            decreases n - i,
        {
            if bytes_eq(&self.objects[i].identity, identity) {
                proof {
                    lemma_contents_dom(self.objects@, identity@);
                }
                return true;
            }
            i = i + 1;
        }
        false
    }

    /// Stores `data` under its identity; a no-op success if the
    /// identity is already present.
    pub fn put(&mut self, identity: &Vec<u8>, data: &Vec<u8>)
        requires
            old(self).wf(),
            identity@ == spec_identity(data@),
        ensures
            final(self).wf(),
            final(self).contents() == store_after_put(old(self).contents(), identity@, data@),
            old(self).contents().dom().contains(identity@) ==> final(self).object_count() == old(
                self,
            ).object_count(),
            !old(self).contents().dom().contains(identity@) ==> final(self).object_count() == old(
                self,
            ).object_count() + 1,
    {
        if self.contains(identity) {
            return ;
        }
        proof {
            lemma_contents_dom(self.objects@, identity@);
        }
        let obj = CacheObject { identity: copy_bytes(identity), data: copy_bytes(data) };
        self.objects.push(obj);
        proof {
            assert(self.objects@.drop_last() =~= old(self).objects@);
        }
    }
}

/// Idempotence: re-adding an unchanged file derives the identity that
/// is already present, and the put leaves the store — the existing
/// object included — exactly as it was.
pub proof fn lemma_idempotent_readd(m: Map<Seq<u8>, Seq<u8>>, data: Seq<u8>)
    requires
        m.dom().contains(spec_identity(data)),
    ensures
        store_after_put(m, spec_identity(data), data) == m,
{
}

/// Deduplication: adding identical bytes twice stores exactly one
/// object — the second put finds the identity present and changes
/// nothing — while the domain gains only that one identity.
pub proof fn lemma_deduplication(m: Map<Seq<u8>, Seq<u8>>, data: Seq<u8>)
    ensures
        ({
            let once = store_after_put(m, spec_identity(data), data);
            let twice = store_after_put(once, spec_identity(data), data);
            &&& twice == once
            &&& once.dom() == m.dom().insert(spec_identity(data))
        }),
{
    let id = spec_identity(data);
    let once = store_after_put(m, id, data);
    assert(once.dom() =~= m.dom().insert(id));
}

} // verus!
