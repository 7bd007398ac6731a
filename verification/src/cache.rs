//! The result cache: a bounded least-recently-used store from request keys
//! to finished diff records. Only commit-to-commit comparisons are cached;
//! a working-tree comparison always recomputes. Entries can be dropped for
//! one repository (by key prefix) or all at once.

use vstd::prelude::*;

use crate::model::FileDiff;
use crate::text::{seq_starts_with, str_eq, str_starts_with};

verus! {

#[verifier::external_type_specification]
#[verifier::external_body]
#[verifier::reject_recursive_types(K)]
#[verifier::reject_recursive_types(V)]
#[verifier::reject_recursive_types(S)]
pub struct ExLruCache<K, V, S>(lru::LruCache<K, V, S>);

/// What an LRU store holds: its entries, keyed by the key's characters.
pub uninterp spec fn cache_contents(c: lru::LruCache<String, FileDiff>) -> Map<
    Seq<char>,
    FileDiff,
>;

/// The store's keys from most to least recently used.
pub uninterp spec fn cache_order(c: lru::LruCache<String, FileDiff>) -> Seq<Seq<char>>;

/// The bound the store was created with.
pub uninterp spec fn cache_cap(c: lru::LruCache<String, FileDiff>) -> int;

/// The recency order lists each key exactly once, the entries are exactly
/// the listed keys, and the store never exceeds its bound.
pub open spec fn cache_wf(c: lru::LruCache<String, FileDiff>) -> bool {
    &&& cache_order(c).no_duplicates()
    &&& cache_order(c).len() == cache_contents(c).dom().len()
    &&& (forall|k: Seq<char>|
        cache_contents(c).dom().contains(k) <==> cache_order(c).contains(k))
    &&& cache_contents(c).dom().finite()
    &&& cache_contents(c).dom().len() <= cache_cap(c)
    &&& cache_cap(c) >= 1
}

/// The recency order with one key taken out.
pub open spec fn order_drop(s: Seq<Seq<char>>, k: Seq<char>) -> Seq<Seq<char>> {
    s.filter(|x: Seq<char>| x != k)
}

/// Relies on lru::LruCache::new: a fresh store is empty and holds at most
/// `cap` entries.
#[verifier::external_body]
fn lru_new(cap: usize) -> (c: lru::LruCache<String, FileDiff>)
    requires
        cap >= 1,
    ensures
        (cache_contents(c) == Map::<Seq<char>, FileDiff>::empty()),
        (cache_order(c) == Seq::<Seq<char>>::empty()),
        cache_cap(c) == cap,
{
    lru::LruCache::new(std::num::NonZeroUsize::new(cap).unwrap())
}

/// Relies on lru::LruCache::get: a hit returns the entry unchanged and
/// moves its key to the most-recent position; a miss changes nothing.
#[verifier::external_body]
fn lru_get(c: &mut lru::LruCache<String, FileDiff>, k: &String) -> (r: Option<FileDiff>)
    requires
        cache_wf(*old(c)),
    ensures
        cache_wf(*final(c)),
        cache_cap(*final(c)) == cache_cap(*old(c)),
        (cache_contents(*final(c)) == cache_contents(*old(c))),
        cache_contents(*old(c)).dom().contains(k@) ==> r == Option::Some(
            cache_contents(*old(c))[k@],
        ),
        cache_contents(*old(c)).dom().contains(k@) ==> (cache_order(*final(c)) == seq![k@]
            + order_drop(cache_order(*old(c)), k@)),
        !cache_contents(*old(c)).dom().contains(k@) ==> r is None,
        !cache_contents(*old(c)).dom().contains(k@) ==> (cache_order(*final(c)) == cache_order(
            *old(c),
        )),
{
    c.get(k).cloned()
}

/// Relies on lru::LruCache::put: an existing key is updated and moved to
/// the front; a fresh key is inserted at the front, and when the store is
/// full the least-recently-used entry — the back of the recency order — is
/// evicted to make room.
#[verifier::external_body]
fn lru_put(c: &mut lru::LruCache<String, FileDiff>, k: String, v: FileDiff)
    requires
        cache_wf(*old(c)),
    ensures
        cache_wf(*final(c)),
        cache_cap(*final(c)) == cache_cap(*old(c)),
        cache_contents(*old(c)).dom().contains(k@) ==> (cache_contents(*final(c))
            == cache_contents(*old(c)).insert(k@, v)) && (cache_order(*final(c)) == seq![k@]
            + order_drop(cache_order(*old(c)), k@)),
        !cache_contents(*old(c)).dom().contains(k@) && cache_contents(*old(c)).dom().len()
            < cache_cap(*old(c)) ==> (cache_contents(*final(c)) == cache_contents(
            *old(c),
        ).insert(k@, v)) && (cache_order(*final(c)) == seq![k@] + cache_order(*old(c))),
        !cache_contents(*old(c)).dom().contains(k@) && cache_contents(*old(c)).dom().len()
            == cache_cap(*old(c)) ==> (cache_contents(*final(c)) == cache_contents(
            *old(c),
        ).remove(cache_order(*old(c)).last()).insert(k@, v)) && (cache_order(*final(c))
            == seq![k@] + cache_order(*old(c)).drop_last()),
{
    c.put(k, v);
}

/// Relies on lru::LruCache::pop: removes the entry for the key, leaving the
/// others in their recency order.
#[verifier::external_body]
fn lru_pop(c: &mut lru::LruCache<String, FileDiff>, k: &String)
    requires
        cache_wf(*old(c)),
    ensures
        cache_wf(*final(c)),
        cache_cap(*final(c)) == cache_cap(*old(c)),
        (cache_contents(*final(c)) == cache_contents(*old(c)).remove(k@)),
        (cache_order(*final(c)) == order_drop(cache_order(*old(c)), k@)),
{
    c.pop(k);
}

/// Relies on lru::LruCache::clear: removes every entry.
#[verifier::external_body]
fn lru_clear(c: &mut lru::LruCache<String, FileDiff>)
    requires
        cache_wf(*old(c)),
    ensures
        cache_wf(*final(c)),
        cache_cap(*final(c)) == cache_cap(*old(c)),
        (cache_contents(*final(c)) == Map::<Seq<char>, FileDiff>::empty()),
        (cache_order(*final(c)) == Seq::<Seq<char>>::empty()),
{
    c.clear();
}

/// Relies on lru::LruCache::iter: visits the keys from most to least
/// recently used.
#[verifier::external_body]
fn lru_keys(c: &lru::LruCache<String, FileDiff>) -> (r: Vec<String>)
    ensures
        r@.len() == cache_order(*c).len(),
        forall|i: int| 0 <= i < r@.len() ==> #[trigger] r@[i]@ == cache_order(*c)[i],
{
    c.iter().map(|(k, _)| k.clone()).collect()
}

/// The sentinel head revision that denotes the live working tree.
pub open spec fn spec_working_tree() -> Seq<char> {
    "WORKING_TREE"@
}

/// The cache key of a diff request: its five components joined with
/// colons, the flag rendered as `true` or `false`.
pub open spec fn spec_cache_key(
    repo_root: Seq<char>,
    base_sha: Seq<char>,
    head_sha: Seq<char>,
    file_path: Seq<char>,
    ignore_whitespace: bool,
) -> Seq<char> {
    repo_root + ":"@ + base_sha + ":"@ + head_sha + ":"@ + file_path + ":"@ + (
    if ignore_whitespace {
        "true"@
    } else {
        "false"@
    })
}

/// Build the cache key of a diff request.
pub fn cache_key(
    repo_root: &str,
    base_sha: &str,
    head_sha: &str,
    file_path: &str,
    ignore_whitespace: bool,
) -> (r: String)
    ensures
        r@ == spec_cache_key(repo_root@, base_sha@, head_sha@, file_path@, ignore_whitespace),
{
    let mut key = String::new();
    key.append(repo_root);
    key.append(":");
    key.append(base_sha);
    key.append(":");
    key.append(head_sha);
    key.append(":");
    key.append(file_path);
    key.append(":");
    if ignore_whitespace {
        key.append("true");
    } else {
        key.append("false");
    }
    key
}

/// The bounded, least-recently-used store of finished diff records. Its
/// callers serialize access behind a lock of their own; the store itself is
/// plain state.
pub struct DiffCache {
    store: lru::LruCache<String, FileDiff>,
}

impl DiffCache {
    /// The entries, keyed by cache-key characters.
    pub closed spec fn contents(&self) -> Map<Seq<char>, FileDiff> {
        cache_contents(self.store)
    }

    /// The keys from most to least recently used.
    pub closed spec fn order(&self) -> Seq<Seq<char>> {
        cache_order(self.store)
    }

    /// The bound given at construction.
    pub closed spec fn cap(&self) -> int {
        cache_cap(self.store)
    }

    /// The store is well formed.
    pub closed spec fn wf(&self) -> bool {
        cache_wf(self.store)
    }

    /// A fresh, empty cache holding at most `capacity` records.
    pub fn new(capacity: usize) -> (r: DiffCache)
        requires
            capacity >= 1,
        ensures
            r.wf(),
            (r.contents() == Map::<Seq<char>, FileDiff>::empty()),
            (r.order() == Seq::<Seq<char>>::empty()),
            r.cap() == capacity,
    {
        DiffCache { store: lru_new(capacity) }
    }

    /// Look a key up; a hit hands back the cached record and refreshes the
    /// key's recency, a miss changes nothing.
    pub fn lookup(&mut self, key: &String) -> (r: Option<FileDiff>)
        requires
            old(self).wf(),
        ensures
            final(self).wf(),
            final(self).cap() == old(self).cap(),
            (final(self).contents() == old(self).contents()),
            old(self).contents().dom().contains(key@) ==> r == Option::Some(
                old(self).contents()[key@],
            ),
            !old(self).contents().dom().contains(key@) ==> r is None && (final(self).order() == old(
                self,
            ).order()),
    {
        lru_get(&mut self.store, key)
    }

    /// Insert a record. An existing key is overwritten and refreshed; a
    /// fresh key on a full cache evicts exactly the least-recently-used
    /// entry — the back of the recency order — and no other.
    pub fn insert(&mut self, key: String, diff: FileDiff)
        requires
            old(self).wf(),
        ensures
            final(self).wf(),
            final(self).cap() == old(self).cap(),
            final(self).contents().dom().contains(key@),
            (final(self).contents()[key@] == diff),
            old(self).contents().dom().contains(key@) ==> (final(self).contents() == old(
                self,
            ).contents().insert(key@, diff)),
            !old(self).contents().dom().contains(key@) && old(self).contents().dom().len()
                < old(self).cap() ==> (final(self).contents() == old(self).contents().insert(
                key@,
                diff,
            )),
            !old(self).contents().dom().contains(key@) && old(self).contents().dom().len()
                == old(self).cap() ==> (final(self).contents() == old(self).contents().remove(
                old(self).order().last(),
            ).insert(key@, diff)) && (final(self).order() == seq![key@] + old(
                self,
            ).order().drop_last()),
    {
        let ghost k = key@;
        lru_put(&mut self.store, key, diff);
        proof {
            if cache_contents(old(self).store).dom().contains(k) {
                assert(self.contents() == old(self).contents().insert(k, diff));
            }
        }
    }

    /// Drop every entry whose key begins with the given repository root.
    pub fn invalidate_repo(&mut self, repo_root: &String)
        requires
            old(self).wf(),
        ensures
            final(self).wf(),
            final(self).cap() == old(self).cap(),
            forall|k: Seq<char>|
                #[trigger] final(self).contents().dom().contains(k) <==> (old(
                    self,
                ).contents().dom().contains(k) && !seq_starts_with(k, repo_root@)),
            forall|k: Seq<char>|
                final(self).contents().dom().contains(k) ==> #[trigger] final(self).contents()[k] == old(
                    self,
                ).contents()[k],
    {
        let keys = lru_keys(&self.store);
        let ghost c0 = self.contents();
        let mut i: usize = 0;
        while i < keys.len()
            invariant
                i <= keys@.len(),
                self.wf(),
                self.cap() == old(self).cap(),
                keys@.len() == old(self).order().len(),
                forall|m: int|
                    0 <= m < keys@.len() ==> #[trigger] keys@[m]@ == old(self).order()[m],
                forall|k: Seq<char>|
                    #[trigger] self.contents().dom().contains(k) <==> (c0.dom().contains(k)
                        && !(exists|m: int|
                        0 <= m < i && #[trigger] keys@[m]@ == k && seq_starts_with(
                            k,
                            repo_root@,
                        ))),
                forall|k: Seq<char>|
                    self.contents().dom().contains(k) ==> #[trigger] self.contents()[k]
                        == c0[k],
            decreases keys@.len() - i,
        {
            let ghost pre = self.contents();
            let ghost ki = keys@[i as int]@;
            let matches_prefix = str_starts_with(keys[i].as_str(), repo_root.as_str());
            if matches_prefix {
                lru_pop(&mut self.store, &keys[i]);
            }
            proof {
                if matches_prefix {
                    assert(self.contents() == pre.remove(ki));
                } else {
                    assert(self.contents() == pre);
                }
                assert forall|k: Seq<char>| #[trigger]
                    self.contents().dom().contains(k) <==> (c0.dom().contains(k) && !(
                    exists|m: int|
                        0 <= m < i + 1 && #[trigger] keys@[m]@ == k && seq_starts_with(
                            k,
                            repo_root@,
                        ))) by {
                    if self.contents().dom().contains(k) {
                        assert(pre.dom().contains(k));
                        assert(c0.dom().contains(k));
                        if exists|m: int|
                            0 <= m < i + 1 && #[trigger] keys@[m]@ == k && seq_starts_with(
                                k,
                                repo_root@,
                            ) {
                            let m = choose|m: int|
                                0 <= m < i + 1 && #[trigger] keys@[m]@ == k
                                    && seq_starts_with(k, repo_root@);
                            assert(m == i);
                            assert(matches_prefix);
                            assert(!self.contents().dom().contains(k));
                        }
                    } else {
                        if c0.dom().contains(k) && !(exists|m: int|
                            0 <= m < i + 1 && #[trigger] keys@[m]@ == k && seq_starts_with(
                                k,
                                repo_root@,
                            )) {
                            assert(!(exists|m: int|
                                0 <= m < i && #[trigger] keys@[m]@ == k && seq_starts_with(
                                    k,
                                    repo_root@,
                                )));
                            assert(pre.dom().contains(k));
                            if matches_prefix && k == ki {
                                assert(0 <= i < i + 1 && keys@[i as int]@ == k
                                    && seq_starts_with(k, repo_root@));
                            }
                            assert(self.contents().dom().contains(k));
                        }
                    }
                }
            }
            i = i + 1;
        }
        proof {
            assert forall|k: Seq<char>| #[trigger]
                self.contents().dom().contains(k) <==> (old(self).contents().dom().contains(k)
                && !seq_starts_with(k, repo_root@)) by {
                if old(self).contents().dom().contains(k) && seq_starts_with(k, repo_root@) {
                    assert(old(self).order().contains(k));
                    let m = choose|m: int|
                        0 <= m < old(self).order().len() && old(self).order()[m] == k;
                    assert(keys@[m]@ == k);
                }
            }
        }
    }

    /// Drop every entry.
    pub fn clear(&mut self)
        requires
            old(self).wf(),
        ensures
            final(self).wf(),
            final(self).cap() == old(self).cap(),
            (final(self).contents() == Map::<Seq<char>, FileDiff>::empty()),
            (final(self).order() == Seq::<Seq<char>>::empty()),
    {
        lru_clear(&mut self.store);
    }

    /// Look up the record for a diff request, never consulting the cache
    /// for a working-tree comparison.
    pub fn lookup_request(
        &mut self,
        repo_root: &str,
        base_sha: &str,
        head_sha: &str,
        file_path: &str,
        ignore_whitespace: bool,
    ) -> (r: Option<FileDiff>)
        requires
            old(self).wf(),
        ensures
            final(self).wf(),
            final(self).cap() == old(self).cap(),
            (final(self).contents() == old(self).contents()),
            head_sha@ == spec_working_tree() ==> r is None && final(self).order() == old(self).order(),
            head_sha@ != spec_working_tree() && old(self).contents().dom().contains(
                spec_cache_key(repo_root@, base_sha@, head_sha@, file_path@, ignore_whitespace),
            ) ==> r == Option::Some(
                old(self).contents()[spec_cache_key(
                    repo_root@,
                    base_sha@,
                    head_sha@,
                    file_path@,
                    ignore_whitespace,
                )],
            ),
            !old(self).contents().dom().contains(
                spec_cache_key(repo_root@, base_sha@, head_sha@, file_path@, ignore_whitespace),
            ) ==> r is None,
    {
        if str_eq(head_sha, "WORKING_TREE") {
            return None;
        }
        let key = cache_key(repo_root, base_sha, head_sha, file_path, ignore_whitespace);
        self.lookup(&key)
    }

    /// Remember the record for a diff request — unless the head is the
    /// working tree, which is never cached.
    pub fn store_request(
        &mut self,
        repo_root: &str,
        base_sha: &str,
        head_sha: &str,
        file_path: &str,
        ignore_whitespace: bool,
        diff: FileDiff,
    )
        requires
            old(self).wf(),
        ensures
            final(self).wf(),
            final(self).cap() == old(self).cap(),
            head_sha@ == spec_working_tree() ==> (final(self).contents() == old(self).contents())
                && final(self).order() == old(self).order(),
            head_sha@ != spec_working_tree() ==> final(self).contents().dom().contains(
                spec_cache_key(repo_root@, base_sha@, head_sha@, file_path@, ignore_whitespace),
            ) && (final(self).contents()[spec_cache_key(
                repo_root@,
                base_sha@,
                head_sha@,
                file_path@,
                ignore_whitespace,
            )] == diff),
    {
        if str_eq(head_sha, "WORKING_TREE") {
            return ;
        }
        let key = cache_key(repo_root, base_sha, head_sha, file_path, ignore_whitespace);
        self.insert(key, diff);
    }
}

} // verus!
