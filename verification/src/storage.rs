//! An exact model of the object store the library writes into: a map from
//! keys to byte contents with put-overwrites semantics. The batch logic is
//! verified against this model; the process edge mirrors each write onto
//! the real store under the same key.

use vstd::prelude::*;

use crate::batch::{spec_marker_key, BatchInfo};
use crate::batch::ready_marker_key;

verus! {

/// The contents of the object store, keyed by object key.
pub struct Storage {
    keys: Vec<String>,
    vals: Vec<Vec<u8>>,
}

impl View for Storage {
    type V = Map<Seq<char>, Seq<u8>>;

    /// The store as a map from key to contents.
    closed spec fn view(&self) -> Map<Seq<char>, Seq<u8>> {
        Map::new(
            |k: Seq<char>| self.contains_spec(k),
            |k: Seq<char>| self.vals@[self.idx_of(k)]@,
        )
    }
}

impl Storage {
    spec fn contains_spec(self, k: Seq<char>) -> bool {
        exists|i: int| 0 <= i < self.keys@.len() && self.keys@[i]@ == k
    }

    spec fn idx_of(self, k: Seq<char>) -> int {
        choose|i: int| 0 <= i < self.keys@.len() && self.keys@[i]@ == k
    }

    /// Keys are stored at most once, and every key has its contents.
    pub closed spec fn wf(self) -> bool {
        &&& self.keys@.len() == self.vals@.len()
        &&& forall|i: int, j: int|
            0 <= i < j < self.keys@.len() ==> (#[trigger] self.keys@[i])@ != (
            #[trigger] self.keys@[j])@
    }

    proof fn lemma_idx_unique(self, k: Seq<char>, i: int)
        requires
            self.wf(),
            0 <= i < self.keys@.len(),
            self.keys@[i]@ == k,
        ensures
            self.idx_of(k) == i,
    {
        let j = self.idx_of(k);
        assert(0 <= j < self.keys@.len() && self.keys@[j]@ == k);
    }

    /// An empty store.
    pub fn new() -> (r: Storage)
        ensures
            r.wf(),
            r@ == Map::<Seq<char>, Seq<u8>>::empty(),
    {
        let r = Storage { keys: Vec::new(), vals: Vec::new() };
        proof {
            assert(r@ =~= Map::<Seq<char>, Seq<u8>>::empty());
        }
        r
    }

    /// Stores contents under a key, overwriting whatever the key held.
    pub fn put(&mut self, key: String, val: Vec<u8>)
        requires
            old(self).wf(),
        ensures
            final(self).wf(),
            final(self)@ == old(self)@.insert(key@, val@),
    {
        let n = self.keys.len();
        let mut i: usize = 0;
        while i < n
            invariant
                i <= n,
                n == self.keys@.len(),
                *self == *old(self),
                old(self).wf(),
                forall|j: int| 0 <= j < i ==> (#[trigger] self.keys@[j])@ != key@,
            decreases n - i,
        {
            if self.keys[i] == key {
                self.vals.set(i, val);
                proof {
                    old(self).lemma_idx_unique(key@, i as int);
                    assert forall|k2: Seq<char>| self.contains_spec(k2) == old(
                        self,
                    ).contains_spec(k2) by {
                        assert(self.keys@ == old(self).keys@);
                    }
                    assert forall|k2: Seq<char>|
                        #[trigger] old(self).contains_spec(k2) && k2 != key@ implies self@[k2]
                        == old(self)@[k2] by {
                        let j = old(self).idx_of(k2);
                        old(self).lemma_idx_unique(k2, j);
                        self.lemma_idx_unique(k2, j);
                        assert(j != i);
                    }
                    assert(self.contains_spec(key@));
                    self.lemma_idx_unique(key@, i as int);
                    assert(self@ =~= old(self)@.insert(key@, val@));
                }
                return;
            }
            i = i + 1;
        }
        self.keys.push(key);
        self.vals.push(val);
        proof {
            let ghost m = self.keys@.len() - 1;
            assert(self.keys@[m]@ == key@);
            assert forall|k2: Seq<char>|
                #[trigger] old(self).contains_spec(k2) implies self.contains_spec(k2) by {
                let j = old(self).idx_of(k2);
                assert(self.keys@[j]@ == k2);
            }
            assert forall|k2: Seq<char>|
                #[trigger] old(self).contains_spec(k2) && k2 != key@ implies self@[k2] == old(
                self,
            )@[k2] by {
                let j = old(self).idx_of(k2);
                old(self).lemma_idx_unique(k2, j);
                self.lemma_idx_unique(k2, j);
            }
            self.lemma_idx_unique(key@, m);
            assert(self@ =~= old(self)@.insert(key@, val@));
        }
    }

    /// Whether any object is stored under the key.
    pub fn contains(&self, key: &String) -> (r: bool)
        requires
            self.wf(),
        ensures
            r == self@.contains_key(key@),
    {
        let n = self.keys.len();
        let mut i: usize = 0;
        while i < n
            invariant
                i <= n,
                n == self.keys@.len(),
                forall|j: int| 0 <= j < i ==> (#[trigger] self.keys@[j])@ != key@,
            decreases n - i,
        {
            if self.keys[i] == *key {
                return true;
            }
            i = i + 1;
        }
        false
    }

    /// The contents stored under the key, if any.
    pub fn get(&self, key: &String) -> (r: Option<&Vec<u8>>)
        requires
            self.wf(),
        ensures
            match r {
                Some(v) => self@.contains_key(key@) && v@ == self@[key@],
                None => !self@.contains_key(key@),
            },
    {
        let n = self.keys.len();
        let mut i: usize = 0;
        while i < n
            invariant
                i <= n,
                self.wf(),
                n == self.keys@.len(),
                forall|j: int| 0 <= j < i ==> (#[trigger] self.keys@[j])@ != key@,
            decreases n - i,
        {
            if self.keys[i] == *key {
                proof {
                    self.lemma_idx_unique(key@, i as int);
                }
                return Some(&self.vals[i]);
            }
            i = i + 1;
        }
        None
    }

    /// How many objects the store holds.
    pub fn object_count(&self) -> (r: usize)
        requires
            self.wf(),
        ensures
            r == self@.dom().len(),
    {
        proof {
            self.lemma_dom_card();
        }
        self.keys.len()
    }

    proof fn lemma_dom_card(self)
        requires
            self.wf(),
        ensures
            self@.dom().len() == self.keys@.len(),
    {
        let views = self.keys@.map_values(|k: String| k@);
        assert forall|k2: Seq<char>| self@.dom().contains(k2) implies views.contains(k2) by {
            let j = self.idx_of(k2);
            assert(views[j] == k2);
        }
        assert forall|k2: Seq<char>| views.contains(k2) implies self@.dom().contains(k2) by {
            let j = choose|j: int| 0 <= j < views.len() && views[j] == k2;
            assert(self.keys@[j]@ == k2);
        }
        assert(self@.dom() =~= views.to_set());
        assert(views.no_duplicates());
        views.unique_seq_to_set();
    }
}

/// What writing the readiness sentinel does to the store model: one write
/// of the empty sentinel object under the batch's marker key.
pub open spec fn spec_mark_ready(
    m: Map<Seq<char>, Seq<u8>>,
    b: BatchInfo,
) -> Map<Seq<char>, Seq<u8>> {
    m.insert(spec_marker_key(b), Seq::empty())
}

/// Writes the readiness sentinel of a batch: the single, last write that
/// downstream consumers watch for.
pub fn mark_batch_ready(store: &mut Storage, b: &BatchInfo)
    requires
        old(store).wf(),
    ensures
        final(store).wf(),
        final(store)@ == spec_mark_ready(old(store)@, *b),
        final(store)@.contains_key(spec_marker_key(*b)),
{
    let key = ready_marker_key(b);
    store.put(key, Vec::new());
}

/// Law: the readiness sentinel is idempotent — re-writing it for an
/// already-ready batch leaves the store exactly as it was after the first
/// write, so a repeated completion marker is observably a no-op.
pub proof fn lemma_mark_ready_idempotent(m: Map<Seq<char>, Seq<u8>>, b: BatchInfo)
    ensures
        spec_mark_ready(spec_mark_ready(m, b), b) == spec_mark_ready(m, b),
{
    assert(spec_mark_ready(spec_mark_ready(m, b), b) =~= spec_mark_ready(m, b));
}

} // verus!
