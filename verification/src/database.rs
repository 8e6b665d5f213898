//! The ledger of already-published URLs.
//!
//! `Database` keeps every URL that has been posted, in insertion order,
//! with no URL stored twice. Fetchers consult it to filter out items that
//! were already published; the polling loop records each URL right after a
//! successful publish and periodically trims the oldest entries so the
//! ledger stays bounded.

use vstd::prelude::*;

verus! {

/// No URL occurs twice in `entries`.
pub open spec fn distinct_urls(entries: Seq<Seq<char>>) -> bool {
    forall|i: int, j: int| 0 <= i < j < entries.len() ==> entries[i] != entries[j]
}

/// What recording a URL does to the ledger contents: a URL that is already
/// present leaves the ledger unchanged, a new URL is appended (newest last).
pub open spec fn record_spec(entries: Seq<Seq<char>>, url: Seq<char>) -> Seq<Seq<char>> {
    if entries.contains(url) {
        entries
    } else {
        entries.push(url)
    }
}

/// What removing a URL does to the ledger contents: the entry holding `url`
/// disappears, every other entry stays in order; a URL that is absent leaves
/// the ledger unchanged.
pub open spec fn remove_spec(entries: Seq<Seq<char>>, url: Seq<char>) -> Seq<Seq<char>> {
    if entries.contains(url) {
        entries.remove(entries.index_of(url))
    } else {
        entries
    }
}

/// How many entries of the ledger hold exactly `url`.
pub open spec fn count_url(entries: Seq<Seq<char>>, url: Seq<char>) -> nat
    decreases entries.len(),
{
    if entries.len() == 0 {
        0
    } else {
        (if entries.last() == url {
            1nat
        } else {
            0nat
        }) + count_url(entries.drop_last(), url)
    }
}

/// Errors surfaced by the ledger.
#[derive(Debug, PartialEq, Eq, Structural, Clone, Copy)]
pub enum DatabaseError {
    /// The URL is already recorded. Callers treat this as benign: the post
    /// is known to be published, which is all the ledger is asked to track.
    DuplicateKey,
}

/// How many entries the ledger keeps after a retention pass.
pub const RETENTION_CAP: usize = 25000;

/// The ledger of already-published URLs, in insertion order, oldest first.
///
/// The process around the library loads the persisted entries at startup
/// and mirrors every change back to durable storage; this type is the value
/// those mirrored operations are specified against.
pub struct Database {
    urls: Vec<String>,
}

impl View for Database {
    type V = Seq<Seq<char>>;

    closed spec fn view(&self) -> Seq<Seq<char>> {
        self.urls.deep_view()
    }
}

impl Database {
    /// The ledger invariant: no URL is stored twice.
    pub open spec fn wf(&self) -> bool {
        distinct_urls(self@)
    }

    /// An empty ledger.
    pub fn new() -> (db: Database)
        ensures
            db@ == Seq::<Seq<char>>::empty(),
            db.wf(),
    {
        let db = Database { urls: Vec::new() };
        proof {
            assert(db@ =~= Seq::<Seq<char>>::empty());
        }
        db
    }

    /// A ledger preloaded with `urls`, e.g. replayed from durable storage.
    /// The caller vouches that the stored entries are pairwise distinct,
    /// which holds of anything this type wrote out.
    pub fn from_urls(urls: Vec<String>) -> (db: Database)
        requires
            distinct_urls(urls.deep_view()),
        ensures
            db@ == urls.deep_view(),
            db.wf(),
    {
        Database { urls }
    }

    /// How many URLs the ledger currently holds.
    pub fn count(&self) -> (n: usize)
        ensures
            n == self@.len(),
    {
        self.urls.len()
    }

    /// Whether `url` was already published. The in-memory ledger cannot
    /// fail; the storage mirror around the library reports its own errors.
    pub fn has_posted_url(&self, url: &String) -> (present: bool)
        ensures
            present == self@.contains(url@),
    {
        let n = self.urls.len();
        let mut i: usize = 0;
        while i < n
            invariant
                n == self@.len(),
                0 <= i <= n,
                forall|j: int| 0 <= j < i ==> self@[j] != url@,
            decreases n - i,
        {
            if self.urls[i] == *url {
                proof {
                    assert(self@[i as int] == url@);
                }
                return true;
            }
            i += 1;
        }
        false
    }

    /// Record `url` as published. A URL that is already present is reported
    /// as `DuplicateKey` and leaves the ledger unchanged; callers treat that
    /// as benign.
    pub fn add_posted_url(&mut self, url: &String) -> (result: Result<(), DatabaseError>)
        requires
            old(self).wf(),
        ensures
            final(self).wf(),
            final(self)@ == record_spec(old(self)@, url@),
            result is Ok <==> !old(self)@.contains(url@),
            result is Err ==> result->Err_0 == DatabaseError::DuplicateKey,
    {
        if self.has_posted_url(url) {
            Err(DatabaseError::DuplicateKey)
        } else {
            let ghost pre = self@;
            self.urls.push(url.clone());
            proof {
                assert(self@ =~= pre.push(url@));
                assert forall|i: int, j: int| 0 <= i < j < self@.len() implies self@[i]
                    != self@[j] by {
                    if j < pre.len() {
                        assert(pre[i] != pre[j]);
                    } else {
                        assert(!pre.contains(url@));
                        assert(self@[i] == pre[i]);
                    }
                }
            }
            Ok(())
        }
    }

    /// Remove `url` from the ledger if it is present; reports whether an
    /// entry was removed. Removing an absent URL is a no-op, not an error.
    pub fn remove_posted_url(&mut self, url: &String) -> (removed: bool)
        requires
            old(self).wf(),
        ensures
            final(self).wf(),
            removed == old(self)@.contains(url@),
            final(self)@ == remove_spec(old(self)@, url@),
    {
        let ghost pre = self@;
        let n = self.urls.len();
        let mut i: usize = 0;
        while i < n
            invariant
                pre == old(self)@,
                self@ == pre,
                distinct_urls(pre),
                n == self@.len(),
                0 <= i <= n,
                forall|j: int| 0 <= j < i ==> self@[j] != url@,
            decreases n - i,
        {
            if self.urls[i] == *url {
                proof {
                    assert(pre[i as int] == url@);
                    assert(pre.contains(url@));
                    let k = pre.index_of(url@);
                    assert(0 <= k < pre.len() && pre[k] == url@);
                    if k != i {
                        assert(distinct_urls(pre));
                        if k < i {
                            assert(pre[k] != pre[i as int]);
                        } else {
                            assert(pre[i as int] != pre[k]);
                        }
                        assert(false);
                    }
                }
                self.urls.remove(i);
                proof {
                    assert(self@ =~= pre.remove(i as int));
                    lemma_remove_keeps_distinct(pre, i as int);
                }
                return true;
            }
            i += 1;
        }
        false
    }

    /// All stored URLs in insertion order, or `None` if the ledger is empty.
    pub fn get_all_post_urls(&self) -> (result: Option<Vec<String>>)
        ensures
            result is None <==> self@.len() == 0,
            result is Some ==> result->Some_0.deep_view() == self@,
    {
        if self.urls.len() == 0 {
            return None;
        }
        let n = self.urls.len();
        let mut out: Vec<String> = Vec::new();
        let mut i: usize = 0;
        while i < n
            invariant
                n == self.urls@.len(),
                0 <= i <= n,
                out@.len() == i,
                forall|j: int| 0 <= j < i ==> out@[j] == self.urls@[j],
            decreases n - i,
        {
            out.push(self.urls[i].clone());
            i += 1;
        }
        proof {
            assert forall|j: int| 0 <= j < n implies out.deep_view()[j] == self@[j] by {
                assert(out@[j] == self.urls@[j]);
            }
            assert(out.deep_view() =~= self@);
        }
        Some(out)
    }

    /// Drop the oldest entries until at most `max_entries` remain. What is
    /// kept is exactly the most recently inserted suffix of the ledger.
    pub fn trim(&mut self, max_entries: usize)
        requires
            old(self).wf(),
        ensures
            final(self).wf(),
            final(self)@.len() == if old(self)@.len() <= max_entries {
                old(self)@.len() as int
            } else {
                max_entries as int
            },
            final(self)@ == old(self)@.subrange(
                old(self)@.len() - final(self)@.len(),
                old(self)@.len() as int,
            ),
    {
        let ghost pre = self@;
        while self.urls.len() > max_entries
            invariant
                distinct_urls(pre),
                self@.len() <= pre.len(),
                self@ == pre.subrange(pre.len() - self@.len(), pre.len() as int),
                max_entries <= self@.len() || self@.len() == pre.len(),
            decreases self.urls.len(),
        {
            let ghost cur = self@;
            self.urls.remove(0);
            proof {
                assert(self@ =~= cur.remove(0));
                assert(self@ =~= pre.subrange(pre.len() - self@.len(), pre.len() as int));
            }
        }
        proof {
            let fin = self@;
            assert(fin == pre.subrange(pre.len() - fin.len(), pre.len() as int));
            assert forall|i: int, j: int| 0 <= i < j < fin.len() implies fin[i] != fin[j] by {
                let off = pre.len() - fin.len();
                assert(pre[off + i] != pre[off + j]);
            }
        }
    }

    /// The retention pass run after every successful publishing phase:
    /// keep the `RETENTION_CAP` most recently inserted URLs.
    pub fn remove_old_stored_posts(&mut self)
        requires
            old(self).wf(),
        ensures
            final(self).wf(),
            final(self)@.len() == if old(self)@.len() <= RETENTION_CAP {
                old(self)@.len() as int
            } else {
                RETENTION_CAP as int
            },
            final(self)@ == old(self)@.subrange(
                old(self)@.len() - final(self)@.len(),
                old(self)@.len() as int,
            ),
    {
        self.trim(RETENTION_CAP)
    }
}

/// Removing one entry from a ledger with pairwise-distinct entries leaves
/// the remaining entries pairwise distinct.
proof fn lemma_remove_keeps_distinct(entries: Seq<Seq<char>>, k: int)
    requires
        distinct_urls(entries),
        0 <= k < entries.len(),
    ensures
        distinct_urls(entries.remove(k)),
{
    let out = entries.remove(k);
    assert forall|i: int, j: int| 0 <= i < j < out.len() implies out[i] != out[j] by {
        let oi = if i < k {
            i
        } else {
            i + 1
        };
        let oj = if j < k {
            j
        } else {
            j + 1
        };
        assert(out[i] == entries[oi]);
        assert(out[j] == entries[oj]);
        assert(entries[oi] != entries[oj]);
    }
}

/// Law: after a URL is recorded, the ledger contains it, whatever it held
/// before.
pub proof fn lemma_record_then_present(entries: Seq<Seq<char>>, url: Seq<char>)
    ensures
        record_spec(entries, url).contains(url),
{
    if !entries.contains(url) {
        assert(record_spec(entries, url)[entries.len() as int] == url);
    }
}

/// Law: after a URL is removed from a ledger with distinct entries, the
/// ledger no longer contains it.
pub proof fn lemma_remove_then_absent(entries: Seq<Seq<char>>, url: Seq<char>)
    requires
        distinct_urls(entries),
    ensures
        !remove_spec(entries, url).contains(url),
{
    if entries.contains(url) {
        let k = entries.index_of(url);
        assert(0 <= k < entries.len() && entries[k] == url);
        let out = entries.remove(k);
        if out.contains(url) {
            let j = choose|j: int| 0 <= j < out.len() && out[j] == url;
            let oj = if j < k {
                j
            } else {
                j + 1
            };
            assert(out[j] == entries[oj]);
            if oj < k {
                assert(entries[oj] != entries[k]);
            } else {
                assert(entries[k] != entries[oj]);
            }
            assert(false);
        }
    }
}

/// Recording a URL keeps the ledger entries pairwise distinct.
pub proof fn lemma_record_keeps_distinct(entries: Seq<Seq<char>>, url: Seq<char>)
    requires
        distinct_urls(entries),
    ensures
        distinct_urls(record_spec(entries, url)),
{
    if !entries.contains(url) {
        let out = entries.push(url);
        assert forall|i: int, j: int| 0 <= i < j < out.len() implies out[i] != out[j] by {
            if j < entries.len() {
                assert(entries[i] != entries[j]);
            } else {
                assert(out[i] == entries[i]);
            }
        }
    }
}

/// A URL that a ledger does not contain is counted zero times.
proof fn lemma_count_absent(entries: Seq<Seq<char>>, url: Seq<char>)
    requires
        !entries.contains(url),
    ensures
        count_url(entries, url) == 0,
    decreases entries.len(),
{
    if entries.len() > 0 {
        assert(entries.last() != url);
        assert forall|j: int| 0 <= j < entries.drop_last().len() implies entries.drop_last()[j]
            != url by {
            assert(entries[j] != url);
        }
        lemma_count_absent(entries.drop_last(), url);
    }
}

/// In a ledger with distinct entries, a URL it contains is counted exactly
/// once.
proof fn lemma_count_present_distinct(entries: Seq<Seq<char>>, url: Seq<char>)
    requires
        distinct_urls(entries),
        entries.contains(url),
    ensures
        count_url(entries, url) == 1,
    decreases entries.len(),
{
    let rest = entries.drop_last();
    if entries.last() == url {
        if rest.contains(url) {
            let j = choose|j: int| 0 <= j < rest.len() && rest[j] == url;
            assert(entries[j] == url);
            assert(entries[j] != entries[entries.len() - 1]);
            assert(false);
        }
        lemma_count_absent(rest, url);
    } else {
        let j = choose|j: int| 0 <= j < entries.len() && entries[j] == url;
        assert(j < entries.len() - 1);
        assert(rest[j] == url);
        assert(rest.contains(url));
        assert forall|a: int, b: int| 0 <= a < b < rest.len() implies rest[a] != rest[b] by {
            assert(entries[a] != entries[b]);
        }
        lemma_count_present_distinct(rest, url);
    }
}

/// Law: recording is idempotent. Recording a URL twice leaves the same
/// ledger as recording it once, and the ledger then holds exactly one entry
/// for that URL; the second call reports `DuplicateKey` without changing
/// anything, which callers treat as benign.
pub proof fn lemma_record_idempotent(entries: Seq<Seq<char>>, url: Seq<char>)
    requires
        distinct_urls(entries),
    ensures
        record_spec(record_spec(entries, url), url) == record_spec(entries, url),
        count_url(record_spec(entries, url), url) == 1,
{
    lemma_record_then_present(entries, url);
    let once = record_spec(entries, url);
    assert(once.contains(url));
    lemma_record_keeps_distinct(entries, url);
    lemma_count_present_distinct(once, url);
}

} // verus!
