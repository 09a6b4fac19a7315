//! The collection semantics this layer is written against, and the
//! verified read/write operations over them.
//!
//! A `Collection<T>` holds what the database holds for one entity type: the
//! documents in server order, with pairwise distinct keys. Its operations
//! state the collaborator contract exactly — a conflict-checked insert, a
//! full-replace update keyed by the document's own key, a batched read of
//! everything through the pagination engine, and the stubbed single-document
//! read. Unverified glue that talks to a real database mirrors these
//! operations call for call; everything it decides is decided here.

use vstd::prelude::*;

use crate::entity::Entity;
use crate::error::EngineError;
use crate::page::Batch;
use crate::page::Paginator;
use crate::page::PAGE_SIZE;

verus! {

/// The documents of one entity type, in server order.
pub struct Collection<T> {
    docs: Vec<T>,
}

impl<T: Entity> Collection<T> {
    /// The stored documents, in server order.
    pub closed spec fn view(&self) -> Seq<T> {
        self.docs@
    }

    /// No two documents of the sequence carry the same key.
    pub open spec fn keys_unique(docs: Seq<T>) -> bool {
        forall|i: int, j: int|
            0 <= i < j < docs.len() ==> docs[i].spec_key() != docs[j].spec_key()
    }

    /// The collection invariant: keys are pairwise distinct.
    pub open spec fn wf(&self) -> bool {
        Self::keys_unique(self@)
    }

    /// Whether some document of the sequence carries the key.
    pub open spec fn spec_contains_key(docs: Seq<T>, k: Seq<char>) -> bool {
        exists|i: int| 0 <= i < docs.len() && docs[i].spec_key() == k
    }

    /// The position of the document carrying the key. Meaningful only
    /// where such a document exists; unique under `keys_unique`.
    pub open spec fn index_of_key(docs: Seq<T>, k: Seq<char>) -> int {
        choose|i: int| 0 <= i < docs.len() && docs[i].spec_key() == k
    }

    /// The document carrying the key. Meaningful only where one exists.
    pub open spec fn doc_at_key(docs: Seq<T>, k: Seq<char>) -> T {
        docs[Self::index_of_key(docs, k)]
    }

    /// What an insert leaves stored: unchanged on a key conflict, the
    /// document appended otherwise.
    pub open spec fn spec_insert_docs(docs: Seq<T>, doc: T) -> Seq<T> {
        if Self::spec_contains_key(docs, doc.spec_key()) {
            docs
        } else {
            docs.push(doc)
        }
    }

    /// What an insert reports: a duplicate-key failure on a key conflict,
    /// success otherwise.
    pub open spec fn spec_insert_result(docs: Seq<T>, doc: T) -> Result<(), EngineError> {
        if Self::spec_contains_key(docs, doc.spec_key()) {
            Err(EngineError::DuplicateKeyError)
        } else {
            Ok(())
        }
    }

    /// What an update leaves stored: the document under the same key
    /// replaced in full, in place; unchanged where the key is absent.
    pub open spec fn spec_update_docs(docs: Seq<T>, doc: T) -> Seq<T> {
        if Self::spec_contains_key(docs, doc.spec_key()) {
            docs.update(Self::index_of_key(docs, doc.spec_key()), doc)
        } else {
            docs
        }
    }

    /// What an update reports: a not-found failure where the key is
    /// absent, success otherwise.
    pub open spec fn spec_update_result(docs: Seq<T>, doc: T) -> Result<(), EngineError> {
        if Self::spec_contains_key(docs, doc.spec_key()) {
            Ok(())
        } else {
            Err(EngineError::NotFoundError)
        }
    }

    /// An empty collection.
    pub fn new() -> (c: Self)
        ensures
            c@ == Seq::<T>::empty(),
            c.wf(),
    {
        Collection { docs: Vec::new() }
    }

    /// The number of stored documents.
    pub fn len(&self) -> (n: usize)
        ensures
            n == self@.len(),
    {
        self.docs.len()
    }

    /// The position of the document carrying `key`, if any.
    fn find_key(&self, key: &String) -> (r: Option<usize>)
        ensures
            match r {
                Some(i) => i < self@.len() && self@[i as int].spec_key() == key@,
                None => !Self::spec_contains_key(self@, key@),
            },
    {
        let mut i: usize = 0;
        while i < self.docs.len()
            invariant
                i <= self@.len(),
                forall|j: int| 0 <= j < i ==> self@[j].spec_key() != key@,
            decreases self@.len() - i,
        {
            let k = self.docs[i].key();
            if k == *key {
                return Some(i);
            }
            i = i + 1;
        }
        None
    }

    /// Insert a new document, with overwrite denied: it fails with
    /// `DuplicateKeyError` and stores nothing when a document already
    /// carries the same key, and appends the document otherwise. On
    /// success the document is retrievable by its key.
    pub fn insert(&mut self, doc: T) -> (r: Result<(), EngineError>)
        requires
            old(self).wf(),
        ensures
            final(self).wf(),
            final(self)@ == Self::spec_insert_docs(old(self)@, doc),
            r == Self::spec_insert_result(old(self)@, doc),
            r is Ok ==> Self::spec_contains_key(final(self)@, doc.spec_key())
                && Self::doc_at_key(final(self)@, doc.spec_key()) == doc,
    {
        let k = doc.key();
        match self.find_key(&k) {
            Some(i) => {
                proof {
                    assert(self@[i as int].spec_key() == doc.spec_key());
                    assert(Self::spec_contains_key(self@, doc.spec_key()));
                }
                Err(EngineError::DuplicateKeyError)
            },
            None => {
                let ghost pre = self@;
                self.docs.push(doc);
                proof {
                    let n = pre.len() as int;
                    assert(self@ == pre.push(doc));
                    assert(self@[n] == doc);
                    Self::lemma_push_keeps_keys_unique(pre, doc);
                    assert(Self::spec_contains_key(self@, doc.spec_key()));
                    Self::lemma_index_of_key_pinned(self@, doc.spec_key(), n);
                }
                Ok(())
            },
        }
    }

    /// Replace, in full, the stored document whose key equals the key of
    /// `doc`: nothing of the previously stored document survives. It fails
    /// with `NotFoundError` and stores nothing when no document carries
    /// that key.
    pub fn update(&mut self, doc: T) -> (r: Result<(), EngineError>)
        requires
            old(self).wf(),
        ensures
            final(self).wf(),
            final(self)@ == Self::spec_update_docs(old(self)@, doc),
            r == Self::spec_update_result(old(self)@, doc),
            r is Ok ==> Self::doc_at_key(final(self)@, doc.spec_key()) == doc,
    {
        let k = doc.key();
        match self.find_key(&k) {
            None => Err(EngineError::NotFoundError),
            Some(i) => {
                let ghost pre = self@;
                proof {
                    assert(pre[i as int].spec_key() == doc.spec_key());
                    assert(Self::spec_contains_key(pre, doc.spec_key()));
                    Self::lemma_index_of_key_pinned(pre, doc.spec_key(), i as int);
                }
                self.docs[i] = doc;
                proof {
                    assert forall|a: int, b: int|
                        0 <= a < b < self@.len() implies self@[a].spec_key()
                        != self@[b].spec_key() by {
                        if a != i && b != i {
                            assert(self@[a] == pre[a] && self@[b] == pre[b]);
                        } else if a == i {
                            assert(self@[b] == pre[b]);
                            assert(pre[i as int].spec_key() == doc.spec_key());
                        } else {
                            assert(self@[a] == pre[a]);
                            assert(pre[i as int].spec_key() == doc.spec_key());
                        }
                    }
                    Self::lemma_index_of_key_pinned(self@, doc.spec_key(), i as int);
                }
                Ok(())
            },
        }
    }

    /// Fetch one document by id. A stub: it fails with `Unimplemented` on
    /// every input rather than silently succeeding or crashing.
    pub fn get(&self, _id: &str) -> (r: Result<T, EngineError>)
        ensures
            r == Err::<T, EngineError>(EngineError::Unimplemented),
    {
        Err(EngineError::Unimplemented)
    }

    /// The batch starting at `off`: up to `PAGE_SIZE` documents in server
    /// order, and a continuation exactly where documents remain beyond it.
    fn batch_at(&self, off: usize) -> (b: Batch<T, usize>)
        requires
            off <= self@.len(),
        ensures
            b.items@ == self@.subrange(
                off as int,
                if self@.len() - off > PAGE_SIZE { off + PAGE_SIZE } else { self@.len() as int },
            ),
            b.continuation == (if self@.len() - off > PAGE_SIZE {
                Some((off + PAGE_SIZE) as usize)
            } else {
                None::<usize>
            }),
    {
        let n = self.docs.len();
        let remaining = n - off;
        let take = if remaining > PAGE_SIZE {
            PAGE_SIZE
        } else {
            remaining
        };
        let mut items: Vec<T> = Vec::new();
        let mut i: usize = 0;
        while i < take
            invariant
                i <= take,
                n == self@.len(),
                off + take <= n,
                items@ == self@.subrange(off as int, off + i),
            decreases take - i,
        {
            items.push(self.docs[off + i].duplicate());
            proof {
                assert(items@ =~= self@.subrange(off as int, off + i + 1));
            }
            i = i + 1;
        }
        let continuation = if remaining > PAGE_SIZE {
            Some(off + PAGE_SIZE)
        } else {
            None
        };
        Batch { items, continuation }
    }

    /// Fetch every document of the collection: issue the initial query and
    /// walk the cursor to completion through the pagination engine. The
    /// result holds every stored document exactly once, in server order —
    /// an empty collection yields an empty sequence, and no document is
    /// duplicated or omitted.
    pub fn get_all(&self) -> (r: Result<Vec<T>, EngineError>)
        ensures
            r is Ok,
            r->Ok_0@ == self@,
    {
        let total = self.docs.len();
        let mut p = Paginator::<T, usize>::new();
        let first = self.batch_at(0);
        p.on_batch(first);
        proof {
            let end0: int = if self@.len() > PAGE_SIZE {
                PAGE_SIZE as int
            } else {
                self@.len() as int
            };
            assert(p.collected() =~= self@.take(end0));
            assert(self@.take(self@.len() as int) =~= self@);
        }
        loop
            invariant
                total == self@.len(),
                p.state() is Fetching ==> {
                    let off = p.state()->Fetching_0;
                    off < self@.len() && p.collected() == self@.take(off as int)
                },
                p.state() is Done ==> p.collected() == self@,
                p.state() is Fetching || p.state() is Done,
                p.collected().len() <= self@.len(),
            ensures
                p.state() is Done,
                p.collected() == self@,
            decreases self@.len() - p.collected().len(),
        {
            let cont = p.next_continuation();
            match cont {
                None => {
                    break;
                },
                Some(off_ref) => {
                    let off: usize = *off_ref;
                    let b = self.batch_at(off);
                    p.on_batch(b);
                    proof {
                        let end: int = if self@.len() - off > PAGE_SIZE {
                            off + PAGE_SIZE
                        } else {
                            self@.len() as int
                        };
                        assert(p.collected() =~= self@.take(end));
                        assert(self@.take(self@.len() as int) =~= self@);
                    }
                },
            }
        }
        p.finish()
    }

    /// Appending a document under a fresh key keeps keys pairwise
    /// distinct.
    proof fn lemma_push_keeps_keys_unique(docs: Seq<T>, doc: T)
        requires
            Self::keys_unique(docs),
            !Self::spec_contains_key(docs, doc.spec_key()),
        ensures
            Self::keys_unique(docs.push(doc)),
    {
        let stored = docs.push(doc);
        assert forall|i: int, j: int|
            0 <= i < j < stored.len() implies stored[i].spec_key() != stored[j].spec_key() by {
            assert(stored[i] == docs[i]);
            if j == docs.len() {
                if docs[i].spec_key() == doc.spec_key() {
                    assert(Self::spec_contains_key(docs, doc.spec_key()));
                }
            } else {
                assert(stored[j] == docs[j]);
            }
        }
    }

    /// Inserting a document and then inserting another under the same key
    /// succeeds once and fails the second time with `DuplicateKeyError`,
    /// storing nothing further: the first document stays stored unchanged,
    /// retrievable under its key.
    pub proof fn lemma_duplicate_insert_rejected(docs: Seq<T>, first: T, second: T)
        requires
            Self::keys_unique(docs),
            !Self::spec_contains_key(docs, first.spec_key()),
            second.spec_key() == first.spec_key(),
        ensures
            ({
                let stored = Self::spec_insert_docs(docs, first);
                &&& Self::spec_insert_result(docs, first) == Ok::<(), EngineError>(())
                &&& Self::spec_insert_result(stored, second) == Err::<(), EngineError>(
                    EngineError::DuplicateKeyError,
                )
                &&& Self::spec_insert_docs(stored, second) == stored
                &&& Self::doc_at_key(stored, first.spec_key()) == first
            }),
    {
        let stored = Self::spec_insert_docs(docs, first);
        let n = docs.len() as int;
        assert(stored == docs.push(first));
        assert(stored[n] == first);
        assert(Self::spec_contains_key(stored, second.spec_key()));
        Self::lemma_push_keeps_keys_unique(docs, first);
        Self::lemma_index_of_key_pinned(stored, first.spec_key(), n);
    }

    /// Inserting a document under a fresh key and then updating under the
    /// same key replaces the stored document in full: what the key then
    /// yields is the update's document, with nothing of the first one
    /// surviving, and no document was added or dropped.
    pub proof fn lemma_update_replaces_in_full(docs: Seq<T>, first: T, second: T)
        requires
            Self::keys_unique(docs),
            !Self::spec_contains_key(docs, first.spec_key()),
            second.spec_key() == first.spec_key(),
        ensures
            ({
                let stored = Self::spec_insert_docs(docs, first);
                let replaced = Self::spec_update_docs(stored, second);
                &&& Self::spec_insert_result(docs, first) == Ok::<(), EngineError>(())
                &&& Self::spec_update_result(stored, second) == Ok::<(), EngineError>(())
                &&& Self::doc_at_key(replaced, second.spec_key()) == second
                &&& replaced.len() == stored.len()
            }),
    {
        let stored = Self::spec_insert_docs(docs, first);
        let replaced = Self::spec_update_docs(stored, second);
        let n = docs.len() as int;
        assert(stored == docs.push(first));
        assert(stored[n] == first);
        assert(Self::spec_contains_key(stored, second.spec_key()));
        Self::lemma_push_keeps_keys_unique(docs, first);
        Self::lemma_index_of_key_pinned(stored, second.spec_key(), n);
        assert(replaced == stored.update(n, second));
        assert(replaced[n] == second);
        assert forall|i: int, j: int|
            0 <= i < j < replaced.len() implies replaced[i].spec_key()
            != replaced[j].spec_key() by {
            if i != n {
                assert(replaced[i] == stored[i]);
            }
            if j != n {
                assert(replaced[j] == stored[j]);
            }
        }
        Self::lemma_index_of_key_pinned(replaced, second.spec_key(), n);
    }

    /// Updating under a key that no stored document carries fails with
    /// `NotFoundError` and creates nothing: what is stored is unchanged.
    pub proof fn lemma_update_missing_creates_nothing(docs: Seq<T>, doc: T)
        requires
            !Self::spec_contains_key(docs, doc.spec_key()),
        ensures
            Self::spec_update_result(docs, doc) == Err::<(), EngineError>(
                EngineError::NotFoundError,
            ),
            Self::spec_update_docs(docs, doc) == docs,
    {
    }

    /// Under pairwise-distinct keys, the position of a key is the position
    /// of any document seen to carry it.
    proof fn lemma_index_of_key_pinned(docs: Seq<T>, k: Seq<char>, i: int)
        requires
            Self::keys_unique(docs),
            0 <= i < docs.len(),
            docs[i].spec_key() == k,
        ensures
            Self::index_of_key(docs, k) == i,
    {
        assert(Self::spec_contains_key(docs, k));
        let j = Self::index_of_key(docs, k);
        assert(0 <= j < docs.len() && docs[j].spec_key() == k);
        if i < j {
            assert(docs[i].spec_key() != docs[j].spec_key());
        } else if j < i {
            assert(docs[j].spec_key() != docs[i].spec_key());
        }
    }
}

} // verus!
