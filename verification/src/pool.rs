//! A pool of pending objects, such as transactions.  Each object is kept
//! under its hash; one is taken only while the pool is unlocked, once, with
//! the nonce that its account expects, and when it is valid.  The nonce
//! that an account expects comes from the last block of the chain, which
//! the caller reads; the pool keeps what it learnt until its cache is
//! dropped.
use vstd::prelude::*;
use crate::address::Address;
use crate::hash::HashView;
use crate::node_state::{entries_map, keys_distinct, lemma_entries_absent, lemma_entries_index, lemma_entries_push};

verus! {

/// The message that tells a channel of a new object.
pub const NEW_TX: &'static str = "new_tx";

/// Why an object was not taken.
#[derive(Debug)]
pub enum PoolError {
    /// The chain could not tell the nonce of the account.
    DBError(String),
    /// An object with the hash is pending already.
    Duplicate(crate::hash::Hash),
    /// The object does not carry the nonce that its account expects.
    NonceError,
    /// The object is not valid.
    TransactionError(String),
    /// The pool is locked.
    Locked,
}

/// What a pool knows of an object: its hash, its account, its nonce, and
/// what its own check answers (`Ok` when it is valid).
pub struct PoolableView {
    pub key: HashView,
    pub owner: Seq<char>,
    pub nonce: u64,
    pub verdict: Result<(), PoolError>,
}

/// An object that a pool can hold.
pub trait Poolable: Sized {
    /// What the pool knows of the object.  This is a statement about the
    /// object, for the contracts; nothing runs it.
    spec fn pool_view(&self) -> PoolableView;

    /// Unique hash id
    fn hash(&self) -> (r: crate::hash::Hash)
        ensures
            r@ == self.pool_view().key;

    /// Account address with this transaction
    fn account(&self) -> (r: Address)
        ensures
            r.text@ == self.pool_view().owner;

    /// Nonce for this transaction
    fn nonce(&self) -> (r: u64)
        ensures
            r == self.pool_view().nonce;

    /// Verify if the object is valid
    fn verify(&self) -> (r: Result<(), PoolError>)
        ensures
            r == self.pool_view().verdict;
}

/// The value of a [`Pool`].
pub struct PoolView<T> {
    pub name: Seq<char>,
    pub channels: Seq<Seq<char>>,
    pub objects: Seq<(HashView, T)>,
    pub nonces: Map<Seq<char>, u64>,
    pub locked: bool,
}

/// The hashes and objects, in the order they came.
pub open spec fn object_views<T>(s: Seq<(crate::hash::Hash, T)>) -> Seq<(HashView, T)> {
    Seq::new(s.len(), |i: int| (s[i].0@, s[i].1))
}

/// The object at index `i` has the hash `k`.
pub open spec fn key_at<T>(s: Seq<(HashView, T)>, k: HashView, i: int) -> bool {
    0 <= i < s.len() && s[i].0 == k
}

/// Some object has the hash `k`.
pub open spec fn has_key<T>(s: Seq<(HashView, T)>, k: HashView) -> bool {
    exists|i: int| key_at(s, k, i)
}

/// No two objects have the same hash, and each is kept under its own.
pub open spec fn objects_wf<T: Poolable>(s: Seq<(HashView, T)>) -> bool {
    &&& forall|i: int, j: int| 0 <= i < j < s.len() ==> s[i].0 != s[j].0
    &&& forall|i: int| 0 <= i < s.len() ==> (#[trigger] s[i]).0 == s[i].1.pool_view().key
}

/// The account of a cached nonce.
pub open spec fn nonce_key() -> spec_fn((Address, u64)) -> Seq<char> {
    |e: (Address, u64)| e.0.text@
}

/// The value of a cached nonce.
pub open spec fn nonce_value() -> spec_fn((Address, u64)) -> u64 {
    |e: (Address, u64)| e.1
}

/// The nonce that the account of `obj` expects: the cached one, else the
/// one the chain gave.
pub open spec fn expected_nonce<T: Poolable>(v: PoolView<T>, obj: T, chain: Result<u64, Seq<char>>) -> Result<u64, Seq<char>> {
    if v.nonces.contains_key(obj.pool_view().owner) { Ok(v.nonces[obj.pool_view().owner]) } else { chain }
}

/// The cache once the nonce of the account of `obj` was looked up: a
/// nonce that the chain gave is kept.
pub open spec fn nonces_after<T: Poolable>(v: PoolView<T>, obj: T, chain: Result<u64, Seq<char>>) -> Map<Seq<char>, u64> {
    if v.nonces.contains_key(obj.pool_view().owner) {
        v.nonces
    } else {
        match chain {
            Ok(n) => v.nonces.insert(obj.pool_view().owner, n),
            Err(_) => v.nonces,
        }
    }
}

/// `i` is the first index of `name` among the channels.
pub open spec fn first_channel(channels: Seq<Seq<char>>, name: Seq<char>, i: int) -> bool {
    &&& 0 <= i < channels.len()
    &&& channels[i] == name
    &&& forall|j: int| 0 <= j < i ==> channels[j] != name
}

/// The texts of the strings, in order.
pub open spec fn texts(s: Seq<String>) -> Seq<Seq<char>> {
    Seq::new(s.len(), |i: int| s[i]@)
}

/// Object pool.
pub struct Pool<T: Poolable> {
    name: String,
    channels: Vec<String>,
    objects: Vec<(crate::hash::Hash, T)>,
    nonce_map: Vec<(Address, u64)>,
    locked: bool,
}

impl<T: Poolable> View for Pool<T> {
    type V = PoolView<T>;

    closed spec fn view(&self) -> PoolView<T> {
        PoolView {
            name: self.name@,
            channels: texts(self.channels@),
            objects: object_views(self.objects@),
            nonces: entries_map(self.nonce_map@, nonce_key(), nonce_value()),
            locked: self.locked,
        }
    }
}

impl<T: Poolable> Pool<T> {
    #[verifier::type_invariant]
    closed spec fn inv(self) -> bool {
        &&& objects_wf(object_views(self.objects@))
        &&& keys_distinct(self.nonce_map@, nonce_key())
    }

    /// An empty, unlocked pool with room for `slab_size` objects to begin
    /// with.
    pub fn new(name: String, slab_size: usize) -> (r: Self)
        ensures
            r@ == (PoolView::<T> {
                name: name@,
                channels: Seq::empty(),
                objects: Seq::empty(),
                nonces: Map::empty(),
                locked: false,
            }),
    {
        let r = Pool {
            name: name,
            channels: Vec::new(),
            objects: Vec::with_capacity(slab_size),
            nonce_map: Vec::new(),
            locked: false,
        };
        assert(texts(r.channels@) =~= Seq::empty());
        assert(object_views(r.objects@) =~= Seq::empty());
        r
    }

    /// Adds the channel of a controller to notify of new objects.
    pub fn add_channel(&mut self, name: String)
        ensures
            final(self)@ == (PoolView { channels: old(self)@.channels.push(name@), ..old(self)@ }),
    {
        proof { use_type_invariant(&*self); }
        let ghost before = self.channels@;
        let mut list: Vec<String> = Vec::new();
        std::mem::swap(&mut list, &mut self.channels);
        list.push(name);
        assert(texts(list@) =~= texts(before).push(list@[list@.len() - 1]@));
        self.channels = list;
    }

    /// Removes the channel at the index.
    pub fn remove_channel(&mut self, index: usize)
        requires
            index < old(self)@.channels.len(),
        ensures
            final(self)@ == (PoolView { channels: old(self)@.channels.remove(index as int), ..old(self)@ }),
    {
        proof { use_type_invariant(&*self); }
        let ghost before = self.channels@;
        let mut list: Vec<String> = Vec::new();
        std::mem::swap(&mut list, &mut self.channels);
        list.remove(index);
        assert(texts(list@) =~= texts(before).remove(index as int));
        self.channels = list;
    }

    /// The index of the first channel with the name.
    pub fn channel_index(&mut self, name: String) -> (r: usize)
        requires
            old(self)@.channels.contains(name@),
        ensures
            first_channel(old(self)@.channels, name@, r as int),
            final(self)@ == old(self)@,
    {
        let ghost cs = self@.channels;
        let mut i: usize = 0;
        while i < self.channels.len()
            invariant
                i <= self.channels@.len(),
                cs == texts(self.channels@),
                cs.contains(name@),
                forall|k: int| 0 <= k < i ==> #[trigger] cs[k] != name@,
            decreases self.channels@.len() - i,
        {
            if self.channels[i] == name {
                return i;
            }
            i = i + 1;
        }
        proof {
            let k = choose|k: int| 0 <= k < cs.len() && cs[k] == name@;
            assert(cs[k] != name@);
        }
        0
    }

    /// The channels to notify of new objects.
    pub fn channels(&self) -> (r: Vec<String>)
        ensures
            texts(r@) == self@.channels,
    {
        let mut out: Vec<String> = Vec::new();
        let mut i: usize = 0;
        while i < self.channels.len()
            invariant
                i <= self.channels@.len(),
                out@.len() == i,
                forall|k: int| 0 <= k < i ==> #[trigger] out@[k]@ == self.channels@[k]@,
            decreases self.channels@.len() - i,
        {
            out.push(self.channels[i].clone());
            i = i + 1;
        }
        assert(texts(out@) =~= texts(self.channels@));
        out
    }

    /// The notices to send when a new object is taken: the message
    /// `new_tx` to each channel, in order.
    pub fn notify_new_tx_recieved(&self) -> (r: Vec<(String, String)>)
        ensures
            r@.len() == self@.channels.len(),
            forall|i: int| 0 <= i < r@.len() ==> (#[trigger] r@[i]).0@ == self@.channels[i] && r@[i].1@ == NEW_TX@,
    {
        let mut out: Vec<(String, String)> = Vec::new();
        let mut i: usize = 0;
        while i < self.channels.len()
            invariant
                i <= self.channels@.len(),
                out@.len() == i,
                forall|k: int| 0 <= k < i ==> (#[trigger] out@[k]).0@ == self.channels@[k]@ && out@[k].1@ == NEW_TX@,
            decreases self.channels@.len() - i,
        {
            out.push((self.channels[i].clone(), String::from_str(NEW_TX)));
            i = i + 1;
        }
        out
    }

    /// The index of the object with the hash.
    fn index_of(&self, hash: &crate::hash::Hash) -> (r: Option<usize>)
        ensures
            r is None <==> !has_key(self@.objects, hash@),
            r matches Some(i) ==> key_at(self@.objects, hash@, i as int),
    {
        let mut i: usize = 0;
        while i < self.objects.len()
            invariant
                i <= self.objects@.len(),
                forall|k: int| 0 <= k < i ==> #[trigger] self.objects@[k].0@ != hash@,
            decreases self.objects@.len() - i,
        {
            if self.objects[i].0.same_as(hash) {
                assert(key_at(self@.objects, hash@, i as int));
                return Some(i);
            }
            i = i + 1;
        }
        assert forall|k: int| !key_at(self@.objects, hash@, k) by {
            if 0 <= k < self@.objects.len() {
                assert(self@.objects[k].0 == self.objects@[k].0@);
            }
        }
        None
    }

    /// If the object exist in pending pool
    pub fn exist(&self, obj: &T) -> (r: bool)
        ensures
            r == has_key(self@.objects, obj.pool_view().key),
            objects_wf(self@.objects),
    {
        proof { use_type_invariant(self); }
        let hash = obj.hash();
        self.index_of(&hash).is_some()
    }

    /// The nonce that the account expects: the cached one, else the one
    /// that the chain gave, which is then cached.
    pub fn get_account_nonce(&mut self, account_addr: Address, chain: Result<u64, String>) -> (r: Result<u64, String>)
        ensures
            old(self)@.nonces.contains_key(account_addr.text@) ==> {
                &&& r == Ok::<u64, String>(old(self)@.nonces[account_addr.text@])
                &&& final(self)@ == old(self)@
            },
            !old(self)@.nonces.contains_key(account_addr.text@) ==> match chain {
                Ok(n) => {
                    &&& r == Ok::<u64, String>(n)
                    &&& final(self)@ == (PoolView { nonces: old(self)@.nonces.insert(account_addr.text@, n), ..old(self)@ })
                },
                Err(e) => (r matches Err(x) && x@ == e@) && final(self)@ == old(self)@,
            },
    {
        proof { use_type_invariant(&*self); }
        let ghost ns = self.nonce_map@;
        let mut i: usize = 0;
        while i < self.nonce_map.len()
            invariant
                i <= ns.len(),
                self.nonce_map@ == ns,
                keys_distinct(ns, nonce_key()),
                forall|k: int| 0 <= k < i ==> nonce_key()(#[trigger] ns[k]) != account_addr.text@,
            decreases ns.len() - i,
        {
            if self.nonce_map[i].0.text == account_addr.text {
                proof {
                    lemma_entries_index(ns, nonce_key(), nonce_value(), i as int);
                }
                return Ok(self.nonce_map[i].1);
            }
            i = i + 1;
        }
        proof {
            lemma_entries_absent(ns, nonce_key(), nonce_value(), account_addr.text@);
        }
        match chain {
            Ok(n) => {
                let mut list: Vec<(Address, u64)> = Vec::new();
                std::mem::swap(&mut list, &mut self.nonce_map);
                list.push((account_addr, n));
                proof {
                    lemma_entries_push(ns, nonce_key(), nonce_value(), list@[list@.len() - 1]);
                    assert(list@ == ns.push(list@[list@.len() - 1]));
                }
                self.nonce_map = list;
                Ok(n)
            },
            Err(e) => Err(e),
        }
    }

    /// Whether the object carries the nonce that its account expects, as
    /// [`Pool::get_account_nonce`] finds it.
    fn verify_nonce(&mut self, obj: &T, chain: Result<u64, String>) -> (r: Result<bool, String>)
        ensures
            final(self)@ == (PoolView { nonces: nonces_after(old(self)@, *obj, chain_view(chain)), ..old(self)@ }),
            match expected_nonce(old(self)@, *obj, chain_view(chain)) {
                Ok(n) => r == Ok::<bool, String>(n == obj.pool_view().nonce),
                Err(e) => (r matches Err(x) && x@ == e),
            },
    {
        let account = obj.account();
        match self.get_account_nonce(account, chain) {
            Ok(nonce) => Ok(nonce == obj.nonce()),
            Err(e) => Err(e),
        }
    }

    /// Drop the nonce cache
    pub fn drop_nonce_cache(&mut self)
        ensures
            final(self)@ == (PoolView { nonces: Map::empty(), ..old(self)@ }),
    {
        proof { use_type_invariant(&*self); }
        self.nonce_map = Vec::new();
        assert(entries_map(self.nonce_map@, nonce_key(), nonce_value()) =~= Map::empty());
    }

    /// Check if the object is valid: it carries the nonce that its account
    /// expects, and it verifies.
    fn check(&mut self, obj: &T, chain: Result<u64, String>) -> (r: Result<(), PoolError>)
        ensures
            final(self)@ == (PoolView { nonces: nonces_after(old(self)@, *obj, chain_view(chain)), ..old(self)@ }),
            check_outcome(old(self)@, *obj, chain_view(chain), r),
    {
        match self.verify_nonce(obj, chain) {
            Ok(r) => {
                if r {
                    obj.verify()
                } else {
                    Err(PoolError::NonceError)
                }
            },
            Err(e) => Err(PoolError::DBError(e)),
        }
    }

    /// Insert an object into the pending pool, under its hash: refused
    /// while the pool is locked, when an object with the hash is pending,
    /// when the object does not carry the nonce that its account expects
    /// (`chain` is what the last block of the chain gives for the account,
    /// consulted when the nonce is not cached), and when it does not
    /// verify, with what its check answers.  Once it is taken, the caller
    /// sends the notices of [`Pool::notify_new_tx_recieved`].
    pub fn push(&mut self, obj: T, chain: Result<u64, String>) -> (r: Result<(), PoolError>)
        ensures
            objects_wf(old(self)@.objects),
            objects_wf(final(self)@.objects),
            old(self)@.locked ==> (r matches Err(PoolError::Locked) && final(self)@ == old(self)@),
            !old(self)@.locked && has_key(old(self)@.objects, obj.pool_view().key) ==> {
                &&& r matches Err(PoolError::Duplicate(h)) && h@ == obj.pool_view().key
                &&& final(self)@ == old(self)@
            },
            !old(self)@.locked && !has_key(old(self)@.objects, obj.pool_view().key)
                ==> check_outcome(old(self)@, obj, chain_view(chain), r),
            !old(self)@.locked && !has_key(old(self)@.objects, obj.pool_view().key) && r is Err
                ==> final(self)@ == (PoolView { nonces: nonces_after(old(self)@, obj, chain_view(chain)), ..old(self)@ }),
            !old(self)@.locked && !has_key(old(self)@.objects, obj.pool_view().key) && r is Ok
                ==> final(self)@ == (PoolView {
                    nonces: nonces_after(old(self)@, obj, chain_view(chain)),
                    objects: old(self)@.objects.push((obj.pool_view().key, obj)),
                    ..old(self)@
                }),
    {
        proof { use_type_invariant(&*self); }
        if self.locked {
            return Err(PoolError::Locked);
        }
        if self.exist(&obj) {
            return Err(PoolError::Duplicate(obj.hash()));
        }
        let checked = self.check(&obj, chain);
        match checked {
            Err(e) => {
                Err(e)
            },
            Ok(()) => {
                proof { use_type_invariant(&*self); }
                let hash = obj.hash();
                let ghost before = object_views(self.objects@);
                let ghost ov = obj;
                let mut list: Vec<(crate::hash::Hash, T)> = Vec::new();
                std::mem::swap(&mut list, &mut self.objects);
                list.push((hash, obj));
                proof {
                    assert(object_views(list@) =~= before.push((ov.pool_view().key, ov)));
                    assert forall|a: int, b: int| 0 <= a < b < object_views(list@).len()
                        implies object_views(list@)[a].0 != object_views(list@)[b].0 by {
                        if b == before.len() {
                            assert(!key_at(before, ov.pool_view().key, a));
                        }
                    }
                }
                self.objects = list;
                Ok(())
            },
        }
    }

    /// Fetch a enqueued object.
    /// The object will be consumed
    pub fn fetch(&mut self, hash: crate::hash::Hash) -> (r: Option<T>)
        ensures
            objects_wf(old(self)@.objects),
            objects_wf(final(self)@.objects),
            !has_key(old(self)@.objects, hash@) ==> r is None && final(self)@ == old(self)@,
            forall|i: int| key_at(old(self)@.objects, hash@, i) ==> {
                &&& r == Some(old(self)@.objects[i].1)
                &&& final(self)@ == (PoolView { objects: old(self)@.objects.remove(i), ..old(self)@ })
            },
    {
        proof { use_type_invariant(&*self); }
        match self.index_of(&hash) {
            Some(i) => {
                let ghost before = object_views(self.objects@);
                let mut list: Vec<(crate::hash::Hash, T)> = Vec::new();
                std::mem::swap(&mut list, &mut self.objects);
                let (_, obj) = list.remove(i);
                proof {
                    assert(object_views(list@) =~= before.remove(i as int));
                    assert forall|j: int| key_at(before, hash@, j) implies j == i by {}
                    assert forall|a: int, b: int| 0 <= a < b < object_views(list@).len()
                        implies object_views(list@)[a].0 != object_views(list@)[b].0 by {
                        let a0 = if a < i { a } else { a + 1 };
                        let b0 = if b < i { b } else { b + 1 };
                        assert(object_views(list@)[a] == before[a0]);
                        assert(object_views(list@)[b] == before[b0]);
                    }
                    assert forall|k: int| 0 <= k < object_views(list@).len()
                        implies (#[trigger] object_views(list@)[k]).0 == object_views(list@)[k].1.pool_view().key by {
                        let k0 = if k < i { k } else { k + 1 };
                        assert(object_views(list@)[k] == before[k0]);
                    }
                }
                self.objects = list;
                Some(obj)
            },
            None => None,
        }
    }

    /// Clear the pending object pool
    pub fn clear(&mut self) -> (r: Result<(), PoolError>)
        ensures
            r is Ok,
            final(self)@ == (PoolView { objects: Seq::empty(), ..old(self)@ }),
    {
        proof { use_type_invariant(&*self); }
        self.objects = Vec::new();
        assert(object_views(self.objects@) =~= Seq::empty());
        Ok(())
    }

    /// Lock the pool
    pub fn lock(&mut self)
        ensures
            final(self)@ == (PoolView { locked: true, ..old(self)@ }),
    {
        proof { use_type_invariant(&*self); }
        self.locked = true;
    }

    /// Unlock the pool
    pub fn unlock(&mut self)
        ensures
            final(self)@ == (PoolView { locked: false, ..old(self)@ }),
    {
        proof { use_type_invariant(&*self); }
        self.locked = false;
    }

    /// Count pending objects in the pool
    pub fn count(&self) -> (r: usize)
        ensures
            r == self@.objects.len(),
            objects_wf(self@.objects),
    {
        proof { use_type_invariant(self); }
        self.objects.len()
    }
}

/// The text of an error of the chain.
pub open spec fn chain_view(chain: Result<u64, String>) -> Result<u64, Seq<char>> {
    match chain {
        Ok(n) => Ok(n),
        Err(e) => Err(e@),
    }
}

/// Two answers of a check agree: both pass, or both fail with one error.
pub open spec fn same_verdict(r: Result<(), PoolError>, v: Result<(), PoolError>) -> bool {
    match (r, v) {
        (Ok(()), Ok(())) => true,
        (Err(a), Err(b)) => a == b,
        _ => false,
    }
}

/// What the checks of an object answer: the chain could not tell the
/// expected nonce; the nonce is not the expected one; the object does not
/// verify; or it passes.
pub open spec fn check_outcome<T: Poolable>(v: PoolView<T>, obj: T, chain: Result<u64, Seq<char>>, r: Result<(), PoolError>) -> bool {
    match expected_nonce(v, obj, chain) {
        Err(e) => (r matches Err(PoolError::DBError(x)) && x@ == e),
        Ok(n) => if n != obj.pool_view().nonce {
            r matches Err(PoolError::NonceError)
        } else {
            same_verdict(r, obj.pool_view().verdict)
        },
    }
}

/// What a read gives back of a write: an object taken by the pool is the
/// one pending under its hash, and fetching it leaves the objects as they
/// were before.
pub proof fn law_fetch_after_push<T: Poolable>(objects: Seq<(HashView, T)>, obj: T)
    requires
        objects_wf(objects),
        !has_key(objects, obj.pool_view().key),
    ensures
        key_at(objects.push((obj.pool_view().key, obj)), obj.pool_view().key, objects.len() as int),
        forall|i: int| key_at(objects.push((obj.pool_view().key, obj)), obj.pool_view().key, i) ==> i == objects.len(),
        objects.push((obj.pool_view().key, obj)).remove(objects.len() as int) == objects,
{
    let s = objects.push((obj.pool_view().key, obj));
    assert forall|i: int| key_at(s, obj.pool_view().key, i) implies i == objects.len() by {
        if i < objects.len() {
            assert(s[i] == objects[i]);
            assert(key_at(objects, obj.pool_view().key, i));
        }
    }
    assert(s.remove(objects.len() as int) =~= objects);
}

/// An object is consumed by its fetch: the pool holds no other object
/// under its hash, so a second fetch with the hash finds nothing.
pub proof fn law_fetch_consumes<T: Poolable>(objects: Seq<(HashView, T)>, k: HashView, i: int)
    requires
        objects_wf(objects),
        key_at(objects, k, i),
    ensures
        forall|j: int| key_at(objects, k, j) ==> j == i,
        !has_key(objects.remove(i), k),
{
    let s = objects.remove(i);
    assert forall|j: int| !key_at(s, k, j) by {
        if 0 <= j < s.len() {
            let j0 = if j < i { j } else { j + 1 };
            assert(s[j] == objects[j0]);
        }
    }
}

} // verus!
