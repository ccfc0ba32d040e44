use vstd::prelude::*;

use crate::negotiation::Algorithm;
use std::sync::Arc;

verus! {

/// A cache key as the contracts see it: the request path's characters and the coding.
pub type KeyView = (Seq<char>, Algorithm);

struct Entry {
    path: String,
    encoding: Algorithm,
    body: Arc<Vec<u8>>,
}

impl Entry {
    spec fn key(&self) -> KeyView {
        (self.path@, self.encoding)
    }
}

/// Relies on `Arc::clone`: the new handle points at the same buffer, so the bytes are the same.
#[verifier::external_body]
pub(crate) fn share(body: &Arc<Vec<u8>>) -> (r: Arc<Vec<u8>>)
    ensures
        r@ == body@,
{
    Arc::clone(body)
}

/// Compressed bodies by request path and coding. Entries are only ever added:
/// once a key is present its bytes stay as they are for the life of the store.
pub struct CacheStore {
    entries: Vec<Entry>,
    contents: Ghost<Map<KeyView, Seq<u8>>>,
}

impl View for CacheStore {
    type V = Map<KeyView, Seq<u8>>;

    closed spec fn view(&self) -> Map<KeyView, Seq<u8>> {
        self.contents@
    }
}

impl CacheStore {
    /// Each stored key is held by exactly one entry, and the map view lists exactly those entries.
    pub closed spec fn wf(&self) -> bool {
        &&& forall|i: int, j: int|
            0 <= i < j < self.entries@.len() ==> #[trigger] self.entries@[i].key() != #[trigger] self.entries@[j].key()
        &&& forall|i: int|
            0 <= i < self.entries@.len() ==> self.contents@.contains_key(#[trigger] self.entries@[i].key())
                && self.contents@[self.entries@[i].key()] == self.entries@[i].body@
        &&& forall|k: KeyView|
            #[trigger] self.contents@.contains_key(k) ==> exists|i: int|
                0 <= i < self.entries@.len() && #[trigger] self.entries@[i].key() == k
    }

    pub fn new() -> (r: CacheStore)
        ensures
            r.wf(),
            r@ == Map::<KeyView, Seq<u8>>::empty(),
    {
        CacheStore { entries: Vec::new(), contents: Ghost(Map::empty()) }
    }

    fn find(&self, path: &str, encoding: Algorithm) -> (r: Option<usize>)
        requires
            self.wf(),
        ensures
            match r {
                Some(i) => i < self.entries@.len() && self.entries@[i as int].key() == (path@, encoding),
                None => !self@.contains_key((path@, encoding)),
            },
    {
        let wanted = path.to_owned();
        let mut i: usize = 0;
        while i < self.entries.len()
            invariant
                self.wf(),
                wanted@ == path@,
                0 <= i <= self.entries@.len(),
                forall|j: int| 0 <= j < i ==> #[trigger] self.entries@[j].key() != (path@, encoding),
            decreases self.entries@.len() - i,
        {
            let e = &self.entries[i];
            if e.encoding == encoding && e.path == wanted {
                return Some(i);
            }
            i = i + 1;
        }
        None
    }

    /// The stored bytes for `(path, encoding)`, shared rather than copied.
    pub fn lookup(&self, path: &str, encoding: Algorithm) -> (r: Option<Arc<Vec<u8>>>)
        requires
            self.wf(),
        ensures
            match r {
                Some(b) => self@.contains_key((path@, encoding)) && b@ == self@[(path@, encoding)],
                None => !self@.contains_key((path@, encoding)),
            },
    {
        match self.find(path, encoding) {
            Some(i) => Some(share(&self.entries[i].body)),
            None => None,
        }
    }

    /// Stores `body` under `(path, encoding)` unless that key already has bytes,
    /// which are then kept.
    pub fn insert(&mut self, path: &str, encoding: Algorithm, body: Arc<Vec<u8>>)
        requires
            old(self).wf(),
        ensures
            final(self).wf(),
            final(self)@ == insert_if_absent(old(self)@, (path@, encoding), body@),
    {
        match self.find(path, encoding) {
            Some(_) => {},
            None => {
                let ghost k = (path@, encoding);
                let ghost old_entries = self.entries@;
                let ghost old_map = self.contents@;
                self.entries.push(Entry { path: path.to_owned(), encoding, body });
                self.contents = Ghost(old_map.insert(k, body@));
                assert(self.entries@[old_entries.len() as int].key() == k);
                assert forall|i: int| 0 <= i < old_entries.len() implies self.entries@[i] == old_entries[i] by {}
                assert forall|kk: KeyView| #[trigger] self.contents@.contains_key(kk) implies exists|i: int|
                    0 <= i < self.entries@.len() && #[trigger] self.entries@[i].key() == kk by {
                    if kk == k {
                        assert(self.entries@[old_entries.len() as int].key() == kk);
                    } else {
                        assert(old_map.contains_key(kk));
                        let i = choose|i: int| 0 <= i < old_entries.len() && #[trigger] old_entries[i].key() == kk;
                        assert(self.entries@[i].key() == kk);
                    }
                }
            },
        }
    }
}

/// The store's contents after an insert of `body` under `key`: the bytes
/// already there stay, else `body` is added.
pub open spec fn insert_if_absent(m: Map<KeyView, Seq<u8>>, key: KeyView, body: Seq<u8>) -> Map<KeyView, Seq<u8>> {
    if m.contains_key(key) {
        m
    } else {
        m.insert(key, body)
    }
}

/// Two requests that both missed the same key and both insert, in either
/// order, leave exactly one of their two buffers under it, whole.
pub proof fn lemma_racing_inserts(m: Map<KeyView, Seq<u8>>, key: KeyView, first: Seq<u8>, second: Seq<u8>)
    requires
        !m.contains_key(key),
    ensures
        insert_if_absent(insert_if_absent(m, key, first), key, second).contains_key(key),
        insert_if_absent(insert_if_absent(m, key, first), key, second)[key] == first,
        insert_if_absent(insert_if_absent(m, key, second), key, first)[key] == second,
        forall|k: KeyView| k != key ==> #[trigger] insert_if_absent(insert_if_absent(m, key, first), key, second).contains_key(k)
            == m.contains_key(k),
{
}

/// Adding to the store never changes what is already in it: bytes stored under
/// a key are the bytes every later lookup of that key sees, whoever inserts after.
pub proof fn lemma_insert_keeps_present(
    before: Map<KeyView, Seq<u8>>,
    after: Map<KeyView, Seq<u8>>,
    key: KeyView,
    body: Seq<u8>,
    present: KeyView,
)
    requires
        before.contains_key(present),
        after == insert_if_absent(before, key, body),
    ensures
        after.contains_key(present),
        after[present] == before[present],
{
}

} // verus!
