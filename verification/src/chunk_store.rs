//! A typed, bounded, content-addressed chunk store.
//!
//! The store keeps one object per address and an exact account of the bytes it
//! holds: `spec_used()` always equals the sum of the stored objects' sizes and
//! never exceeds the configured capacity. Writing the objects to disk is the
//! surrounding process's business; the store is the authority on what is held,
//! what it weighs, and when a put must be refused.

use vstd::prelude::*;

use crate::types::{AddrKey, Address};

verus! {

/// A storable object: it knows its address and its on-disk size.
pub trait Chunk: View + Sized {
    /// The mathematical key of the chunk's address.
    spec fn key_spec(&self) -> AddrKey;

    /// The chunk's size in bytes, as accounted by the store.
    spec fn size_spec(&self) -> nat;

    /// The chunk's own well-formedness; constructors establish it and the
    /// store preserves it. Implies that the size fits the machine.
    spec fn valid(&self) -> bool;

    /// Whether this chunk lives at `addr`.
    fn matches_addr(&self, addr: &Address) -> (r: bool)
        ensures
            r == (self.key_spec() == addr.key()),
    ;

    /// The chunk's size in bytes.
    fn stored_size(&self) -> (n: u64)
        requires
            self.valid(),
        ensures
            n as nat == self.size_spec(),
    ;

    /// The chunk's address.
    fn chunk_addr(&self) -> (a: Address)
        ensures
            a.key() == self.key_spec(),
    ;

    /// A copy of the chunk, equal in content, address and size.
    fn clone_chunk(&self) -> (c: Self)
        requires
            self.valid(),
        ensures
            c@ == self@,
            c.key_spec() == self.key_spec(),
            c.size_spec() == self.size_spec(),
            c.valid(),
    ;
}

/// Errors of the store itself; callers translate them to the client taxonomy.
#[derive(Clone, Copy, PartialEq, Eq, Structural, Debug)]
pub enum ChunkStoreError {
    /// No object is stored at the given address.
    NoSuchChunk,
    /// Storing the object would exceed the capacity.
    NotEnoughSpace,
}

/// The sum of the sizes of a sequence of chunks.
pub open spec fn total_size<T: Chunk>(s: Seq<T>) -> nat
    decreases s.len(),
{
    if s.len() == 0 {
        0
    } else {
        total_size(s.drop_last()) + s.last().size_spec()
    }
}

/// No two chunks of the sequence share an address.
pub open spec fn keys_unique<T: Chunk>(s: Seq<T>) -> bool {
    forall|i: int, j: int|
        0 <= i < j < s.len() ==> (#[trigger] s[i]).key_spec() != (#[trigger] s[j]).key_spec()
}

proof fn lemma_total_size_push<T: Chunk>(s: Seq<T>, x: T)
    ensures
        total_size(s.push(x)) == total_size(s) + x.size_spec(),
{
    assert(s.push(x).drop_last() =~= s);
}

proof fn lemma_total_size_update<T: Chunk>(s: Seq<T>, i: int, x: T)
    requires
        0 <= i < s.len(),
    ensures
        total_size(s.update(i, x)) + s[i].size_spec() == total_size(s) + x.size_spec(),
    decreases s.len(),
{
    if i == s.len() - 1 {
        assert(s.update(i, x).drop_last() =~= s.drop_last());
    } else {
        assert(s.update(i, x).drop_last() =~= s.drop_last().update(i, x));
        lemma_total_size_update(s.drop_last(), i, x);
    }
}

proof fn lemma_total_size_elem<T: Chunk>(s: Seq<T>, i: int)
    requires
        0 <= i < s.len(),
    ensures
        s[i].size_spec() <= total_size(s),
    decreases s.len(),
{
    if i < s.len() - 1 {
        lemma_total_size_elem(s.drop_last(), i);
    }
}

proof fn lemma_total_size_take_step<T: Chunk>(s: Seq<T>, i: int)
    requires
        0 <= i < s.len(),
    ensures
        total_size(s.take(i + 1)) == total_size(s.take(i)) + s[i].size_spec(),
{
    assert(s.take(i + 1).drop_last() =~= s.take(i));
    assert(s.take(i + 1).last() == s[i]);
}

proof fn lemma_total_size_take_le<T: Chunk>(s: Seq<T>, i: int)
    requires
        0 <= i <= s.len(),
    ensures
        total_size(s.take(i)) <= total_size(s),
    decreases s.len() - i,
{
    if i == s.len() {
        assert(s.take(i) =~= s);
    } else {
        lemma_total_size_take_step(s, i);
        lemma_total_size_take_le(s, i + 1);
    }
}

proof fn lemma_total_size_remove<T: Chunk>(s: Seq<T>, i: int)
    requires
        0 <= i < s.len(),
    ensures
        total_size(s.remove(i)) + s[i].size_spec() == total_size(s),
    decreases s.len(),
{
    if i == s.len() - 1 {
        assert(s.remove(i) =~= s.drop_last());
    } else {
        assert(s.remove(i).drop_last() =~= s.drop_last().remove(i));
        assert(s.remove(i).last() == s.last());
        lemma_total_size_remove(s.drop_last(), i);
    }
}

/// A bounded store of chunks, keyed by address.
pub struct ChunkStore<T> {
    items: Vec<T>,
    used: u64,
    max_capacity: u64,
}

impl<T: Chunk> ChunkStore<T> {
    /// The stored objects, in insertion order.
    pub closed spec fn objects(self) -> Seq<T> {
        self.items@
    }

    /// The bytes currently accounted as stored.
    pub closed spec fn spec_used(self) -> nat {
        self.used as nat
    }

    /// The configured hard cap on stored bytes.
    pub closed spec fn spec_capacity(self) -> nat {
        self.max_capacity as nat
    }

    /// Whether an object is stored under key `k`.
    pub open spec fn spec_has(self, k: AddrKey) -> bool {
        exists|i: int| 0 <= i < self.objects().len() && (#[trigger] self.objects()[i]).key_spec() == k
    }

    /// The index of the object stored under key `k`.
    pub open spec fn idx_of(self, k: AddrKey) -> int {
        choose|i: int| 0 <= i < self.objects().len() && (#[trigger] self.objects()[i]).key_spec() == k
    }

    /// The object stored under key `k`.
    pub open spec fn spec_get(self, k: AddrKey) -> T {
        self.objects()[self.idx_of(k)]
    }

    /// Well-formedness: one object per address, every stored object valid,
    /// and the accounting exact.
    pub open spec fn wf(self) -> bool {
        &&& keys_unique(self.objects())
        &&& forall|i: int| 0 <= i < self.objects().len() ==> (#[trigger] self.objects()[i]).valid()
        &&& self.spec_used() == total_size(self.objects())
        &&& self.spec_used() <= self.spec_capacity()
    }

    /// What a successful `put` of `obj` does to the store, with
    /// `outside_used` bytes held elsewhere on the node counting against
    /// the shared capacity.
    pub open spec fn put_effect(pre: Self, post: Self, obj: T, outside_used: nat) -> bool {
        &&& outside_used + pre.spec_used() + obj.size_spec() <= pre.spec_capacity()
        &&& post.spec_has(obj.key_spec())
        &&& post.spec_get(obj.key_spec()) == obj
        &&& forall|k: AddrKey|
            k != obj.key_spec() ==> #[trigger] post.spec_has(k) == pre.spec_has(k)
        &&& forall|k: AddrKey|
            k != obj.key_spec() && pre.spec_has(k) ==> #[trigger] post.spec_get(k) == pre.spec_get(k)
        &&& post.spec_used() + (if pre.spec_has(obj.key_spec()) {
            pre.spec_get(obj.key_spec()).size_spec()
        } else {
            0
        }) == pre.spec_used() + obj.size_spec()
        &&& post.spec_capacity() == pre.spec_capacity()
    }

    /// What a successful `delete` at key `k` does to the store.
    pub open spec fn delete_effect(pre: Self, post: Self, k: AddrKey) -> bool {
        &&& pre.spec_has(k)
        &&& !post.spec_has(k)
        &&& forall|k2: AddrKey| k2 != k ==> #[trigger] post.spec_has(k2) == pre.spec_has(k2)
        &&& forall|k2: AddrKey|
            k2 != k && pre.spec_has(k2) ==> #[trigger] post.spec_get(k2) == pre.spec_get(k2)
        &&& post.spec_used() + pre.spec_get(k).size_spec() == pre.spec_used()
        &&& post.spec_capacity() == pre.spec_capacity()
    }

    /// The account and the capacity are machine words.
    pub proof fn lemma_bounds(self)
        ensures
            self.spec_used() <= u64::MAX as nat,
            self.spec_capacity() <= u64::MAX as nat,
    {
    }

    /// A fresh, empty store with the given capacity.
    pub fn new(max_capacity: u64) -> (s: Self)
        ensures
            s.wf(),
            s.objects().len() == 0,
            s.spec_used() == 0,
            s.spec_capacity() == max_capacity as nat,
    {
        ChunkStore { items: Vec::new(), used: 0, max_capacity }
    }

    /// Recover a store from the objects read back from disk — one per
    /// address, as the on-disk layout keeps them. The account of used space
    /// is rebuilt from their sizes; the recovery succeeds exactly when the
    /// objects fit the capacity, and then every given object is held under
    /// its address.
    pub fn recover(objects: Vec<T>, max_capacity: u64) -> (r: Result<Self, ChunkStoreError>)
        requires
            forall|i: int| 0 <= i < objects@.len() ==> (#[trigger] objects@[i]).valid(),
            keys_unique(objects@),
        ensures
            match r {
                Ok(s) => {
                    &&& s.wf()
                    &&& s.spec_capacity() == max_capacity as nat
                    &&& s.spec_used() == total_size(objects@)
                    &&& total_size(objects@) <= max_capacity as nat
                    &&& forall|i: int|
                        0 <= i < objects@.len() ==> s.spec_has(
                            (#[trigger] objects@[i]).key_spec(),
                        ) && s.spec_get(objects@[i].key_spec())@ == objects@[i]@ && s.spec_get(
                            objects@[i].key_spec(),
                        ).size_spec() == objects@[i].size_spec()
                },
                Err(ChunkStoreError::NotEnoughSpace) => total_size(objects@) > max_capacity as nat,
                Err(_) => false,
            },
    {
        let mut s: ChunkStore<T> = ChunkStore::new(max_capacity);
        let mut i: usize = 0;
        proof {
            assert(objects@.take(0) =~= Seq::<T>::empty());
        }
        while i < objects.len()
            invariant
                i <= objects@.len(),
                forall|j: int| 0 <= j < objects@.len() ==> (#[trigger] objects@[j]).valid(),
                keys_unique(objects@),
                s.wf(),
                s.spec_capacity() == max_capacity as nat,
                s.spec_used() == total_size(objects@.take(i as int)),
                forall|j: int|
                    0 <= j < i ==> s.spec_has((#[trigger] objects@[j]).key_spec()) && s.spec_get(
                        objects@[j].key_spec(),
                    )@ == objects@[j]@ && s.spec_get(objects@[j].key_spec()).size_spec()
                        == objects@[j].size_spec(),
                forall|k: AddrKey|
                    #[trigger] s.spec_has(k) ==> exists|j: int|
                        0 <= j < i && (#[trigger] objects@[j]).key_spec() == k,
            decreases objects.len() - i,
        {
            let ghost pre = s;
            let obj = objects[i].clone_chunk();
            proof {
                lemma_total_size_take_step(objects@, i as int);
                if s.spec_has(obj.key_spec()) {
                    let j = choose|j: int|
                        0 <= j < i && (#[trigger] objects@[j]).key_spec() == obj.key_spec();
                    assert(objects@[j].key_spec() != objects@[i as int].key_spec());
                }
            }
            match s.put(obj, 0) {
                Ok(()) => {}
                Err(_) => {
                    proof {
                        lemma_total_size_take_le(objects@, i as int + 1);
                    }
                    return Err(ChunkStoreError::NotEnoughSpace);
                }
            }
            proof {
                assert forall|k: AddrKey| #[trigger] s.spec_has(k) implies exists|j: int|
                    0 <= j < i + 1 && (#[trigger] objects@[j]).key_spec() == k by {
                    if k != objects@[i as int].key_spec() {
                        assert(pre.spec_has(k));
                    }
                }
            }
            i += 1;
        }
        proof {
            assert(objects@.take(objects@.len() as int) =~= objects@);
        }
        Ok(s)
    }

    fn find_index(&self, addr: &Address) -> (r: Option<usize>)
        ensures
            match r {
                Some(i) => i < self.objects().len()
                    && self.objects()[i as int].key_spec() == addr.key(),
                None => !self.spec_has(addr.key()),
            },
    {
        let mut i: usize = 0;
        while i < self.items.len()
            invariant
                i <= self.objects().len(),
                forall|j: int| 0 <= j < i ==> (#[trigger] self.objects()[j]).key_spec() != addr.key(),
            decreases self.items.len() - i,
        {
            if self.items[i].matches_addr(addr) {
                return Some(i);
            }
            i += 1;
        }
        None
    }

    /// Whether an object is stored at `addr`.
    pub fn has(&self, addr: &Address) -> (r: bool)
        ensures
            r == self.spec_has(addr.key()),
    {
        self.find_index(addr).is_some()
    }

    /// The object stored at `addr`, or `NoSuchChunk`.
    pub fn get(&self, addr: &Address) -> (r: Result<T, ChunkStoreError>)
        requires
            self.wf(),
        ensures
            match r {
                Ok(v) => {
                    &&& self.spec_has(addr.key())
                    &&& v@ == self.spec_get(addr.key())@
                    &&& v.key_spec() == addr.key()
                    &&& v.size_spec() == self.spec_get(addr.key()).size_spec()
                    &&& v.valid()
                },
                Err(ChunkStoreError::NoSuchChunk) => !self.spec_has(addr.key()),
                Err(_) => false,
            },
            (r matches Ok(_)) == self.spec_has(addr.key()),
    {
        match self.find_index(addr) {
            Some(i) => {
                proof {
                    let k = addr.key();
                    assert(self.objects()[i as int].key_spec() == k);
                    assert(self.spec_has(k));
                    let j = self.idx_of(k);
                    assert(0 <= j < self.objects().len() && self.objects()[j].key_spec() == k);
                    assert(j == i as int);
                }
                Ok(self.items[i].clone_chunk())
            }
            None => Err(ChunkStoreError::NoSuchChunk),
        }
    }

    /// Store `obj`, replacing any object already at its address. The store
    /// shares the node's capacity with its sibling stores: the put is
    /// refused when the object's size, on top of this store's account and
    /// the `outside_used` bytes the node holds elsewhere, would exceed the
    /// capacity; the store is then unchanged.
    pub fn put(&mut self, obj: T, outside_used: u64) -> (r: Result<(), ChunkStoreError>)
        requires
            old(self).wf(),
            obj.valid(),
            outside_used + old(self).spec_used() <= old(self).spec_capacity(),
        ensures
            final(self).wf(),
            match r {
                Ok(()) => Self::put_effect(*old(self), *final(self), obj, outside_used as nat),
                Err(ChunkStoreError::NotEnoughSpace) => {
                    &&& *final(self) == *old(self)
                    &&& outside_used + old(self).spec_used() + obj.size_spec() > old(
                        self,
                    ).spec_capacity()
                },
                Err(_) => false,
            },
    {
        let size = obj.stored_size();
        if size > self.max_capacity - self.used - outside_used {
            return Err(ChunkStoreError::NotEnoughSpace);
        }
        let addr = obj.chunk_addr();
        match self.find_index(&addr) {
            Some(i) => {
                let ghost pre = *self;
                let ghost k = obj.key_spec();
                let old_size = self.items[i].stored_size();
                proof {
                    lemma_total_size_update(pre.objects(), i as int, obj);
                    // the stored object at index i is the one `spec_get` denotes
                    let j = pre.idx_of(k);
                    assert(0 <= j < pre.objects().len() && pre.objects()[j].key_spec() == k);
                    assert(j == i as int);
                    lemma_total_size_elem(pre.objects(), i as int);
                }
                self.items.set(i, obj);
                self.used = self.used - old_size + size;
                proof {
                    let post = *self;
                    assert(post.objects() =~= pre.objects().update(i as int, obj));
                    assert forall|k2: AddrKey| k2 != k implies #[trigger] post.spec_has(k2)
                        == pre.spec_has(k2) by {
                        if pre.spec_has(k2) {
                            let j2 = pre.idx_of(k2);
                            assert(post.objects()[j2].key_spec() == k2);
                            assert(post.spec_has(k2));
                        }
                        if post.spec_has(k2) {
                            let j2 = post.idx_of(k2);
                            assert(j2 != i as int);
                            assert(pre.objects()[j2].key_spec() == k2);
                            assert(pre.spec_has(k2));
                        }
                    }
                    assert forall|k2: AddrKey| k2 != k && pre.spec_has(k2) implies #[trigger] post
                        .spec_get(k2) == pre.spec_get(k2) by {
                        let j2 = pre.idx_of(k2);
                        let j3 = post.idx_of(k2);
                        assert(post.objects()[j2].key_spec() == k2);
                        assert(j3 != i as int);
                        assert(pre.objects()[j3].key_spec() == k2);
                        assert(j2 == j3);
                    }
                    assert(post.spec_has(k)) by {
                        assert(post.objects()[i as int].key_spec() == k);
                    }
                    assert(post.idx_of(k) == i as int) by {
                        let j3 = post.idx_of(k);
                        if j3 != i as int {
                            assert(pre.objects()[j3].key_spec() == k);
                        }
                    }
                }
                Ok(())
            }
            None => {
                let ghost pre = *self;
                proof {
                    lemma_total_size_push(pre.objects(), obj);
                }
                self.items.push(obj);
                self.used = self.used + size;
                proof {
                    let post = *self;
                    let ghost k = obj.key_spec();
                    let n = pre.objects().len() as int;
                    assert(post.objects() =~= pre.objects().push(obj));
                    assert(post.objects()[n].key_spec() == k);
                    assert(post.spec_has(k));
                    assert(post.idx_of(k) == n) by {
                        let j3 = post.idx_of(k);
                        if j3 != n {
                            assert(pre.objects()[j3].key_spec() == k);
                            assert(pre.spec_has(k));
                        }
                    }
                    assert forall|k2: AddrKey| k2 != k implies #[trigger] post.spec_has(k2)
                        == pre.spec_has(k2) by {
                        if pre.spec_has(k2) {
                            let j2 = pre.idx_of(k2);
                            assert(post.objects()[j2].key_spec() == k2);
                        }
                        if post.spec_has(k2) {
                            let j2 = post.idx_of(k2);
                            assert(j2 != n);
                            assert(pre.objects()[j2].key_spec() == k2);
                        }
                    }
                    assert forall|k2: AddrKey| k2 != k && pre.spec_has(k2) implies #[trigger] post
                        .spec_get(k2) == pre.spec_get(k2) by {
                        let j2 = pre.idx_of(k2);
                        let j3 = post.idx_of(k2);
                        assert(post.objects()[j2].key_spec() == k2);
                        assert(j3 != n);
                        assert(pre.objects()[j3].key_spec() == k2);
                        assert(j2 == j3);
                    }
                    assert(keys_unique(post.objects()));
                }
                Ok(())
            }
        }
    }

    /// Remove the object at `addr`, or report `NoSuchChunk`.
    pub fn delete(&mut self, addr: &Address) -> (r: Result<(), ChunkStoreError>)
        requires
            old(self).wf(),
        ensures
            final(self).wf(),
            match r {
                Ok(()) => Self::delete_effect(*old(self), *final(self), addr.key()),
                Err(ChunkStoreError::NoSuchChunk) => {
                    &&& *final(self) == *old(self)
                    &&& !old(self).spec_has(addr.key())
                },
                Err(_) => false,
            },
    {
        match self.find_index(addr) {
            Some(i) => {
                let ghost pre = *self;
                let ghost k = addr.key();
                let old_size = self.items[i].stored_size();
                proof {
                    lemma_total_size_remove(pre.objects(), i as int);
                    let j = pre.idx_of(k);
                    assert(0 <= j < pre.objects().len() && pre.objects()[j].key_spec() == k);
                    assert(j == i as int);
                }
                let _ = self.items.remove(i);
                self.used = self.used - old_size;
                proof {
                    let post = *self;
                    assert(post.objects() =~= pre.objects().remove(i as int));
                    assert(keys_unique(post.objects())) by {
                        assert forall|a: int, b: int|
                            0 <= a < b < post.objects().len() implies (#[trigger] post.objects()[a])
                            .key_spec() != (#[trigger] post.objects()[b]).key_spec() by {
                            let a0 = if a < i as int { a } else { a + 1 };
                            let b0 = if b < i as int { b } else { b + 1 };
                            assert(post.objects()[a] == pre.objects()[a0]);
                            assert(post.objects()[b] == pre.objects()[b0]);
                        }
                    }
                    assert(!post.spec_has(k)) by {
                        if post.spec_has(k) {
                            let j2 = post.idx_of(k);
                            let j0 = if j2 < i as int { j2 } else { j2 + 1 };
                            assert(post.objects()[j2] == pre.objects()[j0]);
                            assert(pre.objects()[j0].key_spec() == k);
                        }
                    }
                    assert forall|k2: AddrKey| k2 != k implies #[trigger] post.spec_has(k2)
                        == pre.spec_has(k2) by {
                        if pre.spec_has(k2) {
                            let j2 = pre.idx_of(k2);
                            let j1 = if j2 < i as int { j2 } else { j2 - 1 };
                            assert(j2 != i as int);
                            assert(post.objects()[j1] == pre.objects()[j2]);
                            assert(post.spec_has(k2));
                        }
                        if post.spec_has(k2) {
                            let j2 = post.idx_of(k2);
                            let j0 = if j2 < i as int { j2 } else { j2 + 1 };
                            assert(post.objects()[j2] == pre.objects()[j0]);
                            assert(pre.spec_has(k2));
                        }
                    }
                    assert forall|k2: AddrKey| k2 != k && pre.spec_has(k2) implies #[trigger] post
                        .spec_get(k2) == pre.spec_get(k2) by {
                        let j2 = pre.idx_of(k2);
                        assert(j2 != i as int);
                        let j1 = if j2 < i as int { j2 } else { j2 - 1 };
                        assert(post.objects()[j1] == pre.objects()[j2]);
                        let j3 = post.idx_of(k2);
                        let j0 = if j3 < i as int { j3 } else { j3 + 1 };
                        assert(post.objects()[j3] == pre.objects()[j0]);
                        assert(j3 == j1);
                    }
                }
                Ok(())
            }
            None => Err(ChunkStoreError::NoSuchChunk),
        }
    }

    /// The addresses of all stored objects, in insertion order.
    pub fn list(&self) -> (r: Vec<Address>)
        ensures
            r@.len() == self.objects().len(),
            forall|i: int|
                0 <= i < r@.len() ==> (#[trigger] r@[i]).key() == self.objects()[i].key_spec(),
    {
        let mut r: Vec<Address> = Vec::new();
        let mut i: usize = 0;
        while i < self.items.len()
            invariant
                i <= self.objects().len(),
                r@.len() == i,
                forall|j: int|
                    0 <= j < i ==> (#[trigger] r@[j]).key() == self.objects()[j].key_spec(),
            decreases self.items.len() - i,
        {
            r.push(self.items[i].chunk_addr());
            i += 1;
        }
        r
    }

    /// The bytes currently accounted as stored.
    pub fn used_space(&self) -> (n: u64)
        ensures
            n as nat == self.spec_used(),
    {
        self.used
    }

    /// The configured hard cap on stored bytes.
    pub fn capacity(&self) -> (n: u64)
        ensures
            n as nat == self.spec_capacity(),
    {
        self.max_capacity
    }
}

/// Putting an object and then reading its address gives back that very
/// object: the store holds it unchanged, byte for byte.
pub proof fn lemma_put_then_get<T: Chunk>(
    pre: ChunkStore<T>,
    post: ChunkStore<T>,
    obj: T,
    outside_used: nat,
)
    requires
        ChunkStore::put_effect(pre, post, obj, outside_used),
    ensures
        post.spec_has(obj.key_spec()),
        post.spec_get(obj.key_spec()) == obj,
{
}

/// After a delete, the address holds nothing: `has` is false and a `get`
/// can only answer `NoSuchChunk`.
pub proof fn lemma_delete_then_gone<T: Chunk>(pre: ChunkStore<T>, post: ChunkStore<T>, k: AddrKey)
    requires
        ChunkStore::delete_effect(pre, post, k),
    ensures
        !post.spec_has(k),
{
}

/// As long as the store is well-formed — which every operation preserves —
/// the account of used space is exactly the sum of the stored objects' sizes.
pub proof fn lemma_used_space_is_sum<T: Chunk>(s: ChunkStore<T>)
    requires
        s.wf(),
    ensures
        s.spec_used() == total_size(s.objects()),
        s.spec_used() <= s.spec_capacity(),
{
}

} // verus!
