//! The RSS/Atom source.
//!
//! The host fetches and parses the feed and hands each entry in as plain
//! values. A fetch cycle drops entries without a publish time or at or
//! before the cutoff, drops entries without a link, and drops entries
//! whose link the ledger already holds; survivors keep feed order. A
//! fetch or parse failure skips the whole cycle — no partial posting
//! from a half-parsed feed — and leaves the cutoff unchanged, so nothing
//! is lost: the same items are considered again next cycle.

use crate::clock::compute_cutoff;
use crate::clock::cutoff_from;
use crate::clock::now_unix_seconds;
use crate::database::Database;
use crate::textfmt::clone_opt_string;
use vstd::prelude::*;

verus! {

/// One feed entry, reduced to the fields the pipeline reads: the title,
/// the entry's first link, the publish time as Unix seconds, and the
/// summary.
#[derive(Debug)]
pub struct FeedEntry {
    pub title: Option<String>,
    pub link: Option<String>,
    pub published: Option<i64>,
    pub summary: Option<String>,
}

/// The mathematical model of a feed entry.
pub struct FeedEntryModel {
    pub title: Option<Seq<char>>,
    pub link: Option<Seq<char>>,
    pub published: Option<int>,
    pub summary: Option<Seq<char>>,
}

impl View for FeedEntry {
    type V = FeedEntryModel;

    open spec fn view(&self) -> FeedEntryModel {
        FeedEntryModel {
            title: match self.title {
                Some(t) => Some(t@),
                None => None,
            },
            link: match self.link {
                Some(l) => Some(l@),
                None => None,
            },
            published: match self.published {
                Some(p) => Some(p as int),
                None => None,
            },
            summary: match self.summary {
                Some(s) => Some(s@),
                None => None,
            },
        }
    }
}

impl DeepView for FeedEntry {
    type V = FeedEntryModel;

    open spec fn deep_view(&self) -> FeedEntryModel {
        self.view()
    }
}

impl Clone for FeedEntry {
    fn clone(&self) -> (res: Self)
        ensures
            res == *self,
    {
        FeedEntry {
            title: clone_opt_string(&self.title),
            link: clone_opt_string(&self.link),
            published: self.published,
            summary: clone_opt_string(&self.summary),
        }
    }
}

/// Errors of a fetch cycle.
#[derive(Debug, PartialEq, Eq, Structural, Clone, Copy)]
pub enum FetchError {
    /// The feed could not be fetched or parsed; the cycle is skipped and
    /// retried at the next tick.
    FetchFailed,
}

/// Whether a feed entry survives the cutoff and ledger checks: it must
/// have a publish time newer than the cutoff, and a link that the ledger
/// does not hold.
pub open spec fn keeps_entry(e: FeedEntryModel, cutoff: int, posted: Seq<Seq<char>>) -> bool {
    &&& e.published is Some
    &&& e.published.unwrap() > cutoff
    &&& e.link is Some
    &&& !posted.contains(e.link.unwrap())
}

/// The entries that survive, in feed order.
pub open spec fn select_entries(
    entries: Seq<FeedEntryModel>,
    cutoff: int,
    posted: Seq<Seq<char>>,
) -> Seq<FeedEntryModel>
    decreases entries.len(),
{
    if entries.len() == 0 {
        Seq::empty()
    } else {
        let rest = select_entries(entries.drop_last(), cutoff, posted);
        if keeps_entry(entries.last(), cutoff, posted) {
            rest.push(entries.last())
        } else {
            rest
        }
    }
}

/// Keep the entries that are newer than the cutoff, have a link, and are
/// not yet in the ledger.
pub fn filter_unposted_entries(entries: &Vec<FeedEntry>, cutoff: i64, database: &Database) -> (kept:
    Vec<FeedEntry>)
    ensures
        kept.deep_view() == select_entries(entries.deep_view(), cutoff as int, database@),
{
    let ghost dv = entries.deep_view();
    let ghost posted = database@;
    let n = entries.len();
    let mut kept: Vec<FeedEntry> = Vec::new();
    let mut i: usize = 0;
    while i < n
        invariant
            n == entries@.len(),
            dv == entries.deep_view(),
            posted == database@,
            0 <= i <= n,
            kept.deep_view() == select_entries(dv.take(i as int), cutoff as int, posted),
        decreases n - i,
    {
        proof {
            assert(dv.take(i as int + 1).drop_last() =~= dv.take(i as int));
            assert(dv.take(i as int + 1).last() == dv[i as int]);
        }
        let mut keep = false;
        if let Some(published) = entries[i].published {
            if published > cutoff {
                if let Some(link) = &entries[i].link {
                    if !database.has_posted_url(link) {
                        keep = true;
                    }
                }
            }
        }
        if keep {
            let ghost kpre = kept.deep_view();
            kept.push(entries[i].clone());
            proof {
                assert(kept.deep_view() =~= kpre.push(dv[i as int]));
            }
        }
        i += 1;
    }
    proof {
        assert(dv.take(n as int) =~= dv);
    }
    kept
}

/// The state of an RSS/Atom source: the feed URL, and the cutoff below
/// which entries are ignored.
#[derive(Debug)]
pub struct RssHandler {
    filter_date: i64,
    feed_backdate_duration: i64,
    feed: String,
}

impl RssHandler {
    /// The current cutoff timestamp.
    pub closed spec fn filter_date_spec(&self) -> int {
        self.filter_date as int
    }

    /// The configured backdate window, in seconds.
    pub closed spec fn backdate_spec(&self) -> int {
        self.feed_backdate_duration as int
    }

    /// The feed URL fetched every cycle.
    pub closed spec fn feed_spec(&self) -> Seq<char> {
        self.feed@
    }

    /// The handler invariant: the backdate window is non-negative.
    pub open spec fn wf(&self) -> bool {
        self.backdate_spec() >= 0
    }

    /// A handler whose first cutoff is `now - feed_backdate_seconds`.
    pub fn new_at(feed: String, feed_backdate_seconds: i64, now: i64) -> (handler: Self)
        requires
            feed_backdate_seconds >= 0,
        ensures
            handler.wf(),
            handler.feed_spec() == feed@,
            handler.backdate_spec() == feed_backdate_seconds as int,
            handler.filter_date_spec() == cutoff_from(now as int, feed_backdate_seconds as int),
    {
        let filter_date = compute_cutoff(now, feed_backdate_seconds);
        RssHandler { filter_date, feed_backdate_duration: feed_backdate_seconds, feed }
    }

    /// A handler whose first cutoff reaches back `feed_backdate_seconds`
    /// from the current wall-clock time.
    pub fn new(feed: String, feed_backdate_seconds: i64) -> (handler: Self)
        requires
            feed_backdate_seconds >= 0,
        ensures
            handler.wf(),
            handler.feed_spec() == feed@,
            handler.backdate_spec() == feed_backdate_seconds as int,
    {
        let now = now_unix_seconds();
        Self::new_at(feed, feed_backdate_seconds, now)
    }

    /// The feed URL this handler polls.
    pub fn get_feed(&self) -> (feed: &String)
        ensures
            feed@ == self.feed_spec(),
    {
        &self.feed
    }

    /// The current cutoff: entries at or before it are ignored.
    pub fn get_filter_date(&self) -> (cutoff: i64)
        ensures
            cutoff as int == self.filter_date_spec(),
    {
        self.filter_date
    }

    /// Keep the new, unposted entries of one fetched feed, in feed order,
    /// advancing the cutoff to `now - backdate`. The host fetches and
    /// parses the feed and hands the outcome in as plain values; a fetch
    /// or parse failure skips the whole cycle — reported back as
    /// `FetchFailed` — and leaves the cutoff unchanged, so nothing is
    /// lost: the same items are considered again next cycle.
    pub fn fetch_unposted(
        &mut self,
        parsed: Result<Vec<FeedEntry>, FetchError>,
        database: &Database,
        now: i64,
    ) -> (result: Result<Vec<FeedEntry>, FetchError>)
        requires
            old(self).wf(),
        ensures
            final(self).wf(),
            final(self).feed_spec() == old(self).feed_spec(),
            final(self).backdate_spec() == old(self).backdate_spec(),
            result is Ok <==> parsed is Ok,
            result is Err ==> result->Err_0 == FetchError::FetchFailed
                && final(self).filter_date_spec() == old(self).filter_date_spec(),
            parsed is Ok ==> result->Ok_0.deep_view() == select_entries(
                parsed->Ok_0.deep_view(),
                old(self).filter_date_spec(),
                database@,
            ) && final(self).filter_date_spec() == cutoff_from(
                now as int,
                old(self).backdate_spec(),
            ),
    {
        match parsed {
            Err(_) => Err(FetchError::FetchFailed),
            Ok(entries) => {
                let kept = filter_unposted_entries(&entries, self.filter_date, database);
                self.filter_date = compute_cutoff(now, self.feed_backdate_duration);
                Ok(kept)
            },
        }
    }
}

/// Law: every entry the selection returns survived all three checks — it
/// has a publish time, that time is newer than the cutoff, and its link is
/// not in the ledger. In particular an entry without a publish time is
/// never returned, whatever the cutoff.
pub proof fn lemma_rss_selection_kept(
    entries: Seq<FeedEntryModel>,
    cutoff: int,
    posted: Seq<Seq<char>>,
    i: int,
)
    requires
        0 <= i < select_entries(entries, cutoff, posted).len(),
    ensures
        keeps_entry(select_entries(entries, cutoff, posted)[i], cutoff, posted),
        entries.contains(select_entries(entries, cutoff, posted)[i]),
    decreases entries.len(),
{
    let out = select_entries(entries, cutoff, posted);
    let rest = select_entries(entries.drop_last(), cutoff, posted);
    if keeps_entry(entries.last(), cutoff, posted) && i == rest.len() {
        assert(entries[entries.len() - 1] == entries.last());
    } else {
        lemma_rss_selection_kept(entries.drop_last(), cutoff, posted, i);
        assert(out[i] == rest[i]);
        let k = choose|k: int| 0 <= k < entries.drop_last().len() && entries.drop_last()[k] == rest[i];
        assert(entries[k] == rest[i]);
    }
}

/// Law (completeness): every feed entry that survives the checks is in the
/// selection result.
pub proof fn lemma_rss_selection_complete(
    entries: Seq<FeedEntryModel>,
    cutoff: int,
    posted: Seq<Seq<char>>,
    e: FeedEntryModel,
)
    requires
        entries.contains(e),
        keeps_entry(e, cutoff, posted),
    ensures
        select_entries(entries, cutoff, posted).contains(e),
    decreases entries.len(),
{
    let out = select_entries(entries, cutoff, posted);
    let rest = select_entries(entries.drop_last(), cutoff, posted);
    if entries.last() == e {
        assert(out[rest.len() as int] == e);
    } else {
        let k = choose|k: int| 0 <= k < entries.len() && entries[k] == e;
        assert(k < entries.len() - 1);
        assert(entries.drop_last()[k] == e);
        lemma_rss_selection_complete(entries.drop_last(), cutoff, posted, e);
        let j = choose|j: int| 0 <= j < rest.len() && rest[j] == e;
        assert(out[j] == e);
    }
}

} // verus!
