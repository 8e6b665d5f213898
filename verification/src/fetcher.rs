//! The timed-API news source.
//!
//! A fetch cycle receives the decoded response of the news endpoint,
//! removes duplicate ids (the first occurrence wins), orders the items
//! newest-first by id — a documented heuristic: the source gives no
//! explicit ordering guarantee, and a higher id is taken to mean a newer
//! item — drops items at or before the cutoff, and drops items whose
//! canonical link the ledger already holds. The cutoff then advances to
//! `now - backdate`, so consecutive cycles overlap deliberately: an item
//! that appears during processing is seen next cycle, and the ledger keeps
//! it from being posted twice.

use crate::clock::compute_cutoff;
use crate::clock::cutoff_from;
use crate::clock::now_unix_seconds;
use crate::database::Database;
use crate::textfmt::dec_digits;
use crate::textfmt::trim_spec;
use crate::textfmt::trim_string;
use crate::textfmt::u64_to_dec;
use vstd::prelude::*;
use vstd::string::StringExecFns;

verus! {

/// How many items one fetch asks the endpoint for.
pub const DEFAULT_PAGE_LIMIT: u64 = 20;

/// One decoded item of the news endpoint's response.
#[derive(Debug)]
pub struct NikkiNewsDataInner {
    pub id: u64,
    pub title: String,
    pub section: u64,
    /// Publish time as Unix seconds.
    pub publish_time: i64,
    /// The cover image URL.
    pub cover: String,
    /// The item's abstract.
    pub summary: String,
}

/// The decoded `data` object of the response.
#[derive(Debug)]
pub struct NikkiNewsData {
    pub total: u64,
    pub data: Vec<NikkiNewsDataInner>,
}

/// The decoded response of the news endpoint.
#[derive(Debug)]
pub struct NikkiNewsResponse {
    pub data: NikkiNewsData,
}

/// A candidate news post that survived filtering.
#[derive(Debug)]
pub struct NikkiNewsPost {
    pub url: String,
    pub title: String,
    pub publish_time: i64,
    pub cover: String,
    pub summary: String,
}

/// The mathematical model of a response item.
pub struct NewsItemModel {
    pub id: int,
    pub title: Seq<char>,
    pub section: int,
    pub publish_time: int,
    pub cover: Seq<char>,
    pub summary: Seq<char>,
}

/// The mathematical model of a candidate news post.
pub struct NewsPostModel {
    pub url: Seq<char>,
    pub title: Seq<char>,
    pub publish_time: int,
    pub cover: Seq<char>,
    pub summary: Seq<char>,
}

impl View for NikkiNewsDataInner {
    type V = NewsItemModel;

    open spec fn view(&self) -> NewsItemModel {
        NewsItemModel {
            id: self.id as int,
            title: self.title@,
            section: self.section as int,
            publish_time: self.publish_time as int,
            cover: self.cover@,
            summary: self.summary@,
        }
    }
}

impl DeepView for NikkiNewsDataInner {
    type V = NewsItemModel;

    open spec fn deep_view(&self) -> NewsItemModel {
        self.view()
    }
}

impl Clone for NikkiNewsDataInner {
    fn clone(&self) -> (res: Self)
        ensures
            res == *self,
    {
        NikkiNewsDataInner {
            id: self.id,
            title: self.title.clone(),
            section: self.section,
            publish_time: self.publish_time,
            cover: self.cover.clone(),
            summary: self.summary.clone(),
        }
    }
}

impl View for NikkiNewsPost {
    type V = NewsPostModel;

    open spec fn view(&self) -> NewsPostModel {
        NewsPostModel {
            url: self.url@,
            title: self.title@,
            publish_time: self.publish_time as int,
            cover: self.cover@,
            summary: self.summary@,
        }
    }
}

impl DeepView for NikkiNewsPost {
    type V = NewsPostModel;

    open spec fn deep_view(&self) -> NewsPostModel {
        self.view()
    }
}

/// The endpoint URL asked for `limit` items in `locale`.
pub open spec fn news_query_url_spec(locale: Seq<char>, limit: int) -> Seq<char> {
    "https://infinitynikki.infoldgames.com/api/news?offset=0&limit="@ + dec_digits(limit)
        + "&locale="@ + locale
}

/// The canonical page link of the item with `id` in `locale`. The ledger
/// stores exactly these links.
pub open spec fn canonical_link_spec(locale: Seq<char>, id: int) -> Seq<char> {
    "https://infinitynikki.infoldgames.com/"@ + locale + "/news/"@ + dec_digits(id)
}

/// Whether some item of `items` has this `id`.
pub open spec fn id_present(items: Seq<NewsItemModel>, id: int) -> bool {
    exists|i: int| 0 <= i < items.len() && items[i].id == id
}

/// `items` with every later repetition of an id removed: the first
/// occurrence of each id is kept, in order.
pub open spec fn dedup_by_id(items: Seq<NewsItemModel>) -> Seq<NewsItemModel>
    decreases items.len(),
{
    if items.len() == 0 {
        items
    } else {
        let rest = dedup_by_id(items.drop_last());
        if id_present(rest, items.last().id) {
            rest
        } else {
            rest.push(items.last())
        }
    }
}

/// `sorted` with `x` inserted in front of the first item whose id is not
/// larger than `x`'s.
pub open spec fn insert_desc(x: NewsItemModel, sorted: Seq<NewsItemModel>) -> Seq<NewsItemModel>
    decreases sorted.len(),
{
    if sorted.len() == 0 {
        seq![x]
    } else if x.id >= sorted[0].id {
        seq![x] + sorted
    } else {
        seq![sorted[0]] + insert_desc(x, sorted.drop_first())
    }
}

/// Insertion sort, descending by id.
pub open spec fn sort_desc_by_id(items: Seq<NewsItemModel>) -> Seq<NewsItemModel>
    decreases items.len(),
{
    if items.len() == 0 {
        items
    } else {
        insert_desc(items.last(), sort_desc_by_id(items.drop_last()))
    }
}

/// Whether an item survives the cutoff and ledger checks.
pub open spec fn keeps_item(
    item: NewsItemModel,
    cutoff: int,
    posted: Seq<Seq<char>>,
    locale: Seq<char>,
) -> bool {
    item.publish_time > cutoff && !posted.contains(canonical_link_spec(locale, item.id))
}

/// The candidate post assembled from a surviving item.
pub open spec fn post_of_item(item: NewsItemModel, locale: Seq<char>) -> NewsPostModel {
    NewsPostModel {
        url: canonical_link_spec(locale, item.id),
        title: trim_spec(item.title),
        publish_time: item.publish_time,
        cover: item.cover,
        summary: trim_spec(item.summary),
    }
}

/// The posts assembled from the items that survive, in order.
pub open spec fn select_posts(
    items: Seq<NewsItemModel>,
    cutoff: int,
    posted: Seq<Seq<char>>,
    locale: Seq<char>,
) -> Seq<NewsPostModel>
    decreases items.len(),
{
    if items.len() == 0 {
        Seq::empty()
    } else {
        let rest = select_posts(items.drop_last(), cutoff, posted, locale);
        if keeps_item(items.last(), cutoff, posted, locale) {
            rest.push(post_of_item(items.last(), locale))
        } else {
            rest
        }
    }
}

/// The whole fetch pipeline on the decoded response items: deduplicate by
/// id, order newest-first by id, then keep what passes the cutoff and is
/// not yet in the ledger.
pub open spec fn fetch_pipeline(
    items: Seq<NewsItemModel>,
    cutoff: int,
    posted: Seq<Seq<char>>,
    locale: Seq<char>,
) -> Seq<NewsPostModel> {
    select_posts(sort_desc_by_id(dedup_by_id(items)), cutoff, posted, locale)
}

/// Build the canonical page link of the item with `id` in `locale`.
pub fn canonical_link(locale: &str, id: u64) -> (link: String)
    ensures
        link@ == canonical_link_spec(locale@, id as int),
{
    let mut link = String::new();
    link.append("https://infinitynikki.infoldgames.com/");
    link.append(locale);
    link.append("/news/");
    let digits = u64_to_dec(id);
    link.append(digits.as_str());
    link
}

/// Build the endpoint URL asking for `limit` items in `locale`.
fn make_news_url(locale: &str, limit: u64) -> (url: String)
    ensures
        url@ == news_query_url_spec(locale@, limit as int),
{
    let mut url = String::new();
    url.append("https://infinitynikki.infoldgames.com/api/news?offset=0&limit=");
    let digits = u64_to_dec(limit);
    url.append(digits.as_str());
    url.append("&locale=");
    url.append(locale);
    url
}

/// Whether some already-kept item has this `id`.
fn id_present_exec(items: &Vec<NikkiNewsDataInner>, id: u64) -> (present: bool)
    ensures
        present == id_present(items.deep_view(), id as int),
{
    let n = items.len();
    let mut i: usize = 0;
    while i < n
        invariant
            n == items@.len(),
            0 <= i <= n,
            forall|j: int| 0 <= j < i ==> items.deep_view()[j].id != id as int,
        decreases n - i,
    {
        if items[i].id == id {
            proof {
                assert(items.deep_view()[i as int].id == id as int);
            }
            return true;
        }
        i += 1;
    }
    false
}

/// The state of the timed-API source: where to fetch, and the cutoff
/// below which items are ignored.
pub struct NikkiNewsFetcher {
    filter_date: i64,
    backdate_seconds: i64,
    news_url: String,
    locale: String,
}

impl NikkiNewsFetcher {
    /// The current cutoff timestamp.
    pub closed spec fn filter_date_spec(&self) -> int {
        self.filter_date as int
    }

    /// The configured backdate window, in seconds.
    pub closed spec fn backdate_spec(&self) -> int {
        self.backdate_seconds as int
    }

    /// The configured locale.
    pub closed spec fn locale_spec(&self) -> Seq<char> {
        self.locale@
    }

    /// The endpoint URL fetched every cycle.
    pub closed spec fn news_url_spec(&self) -> Seq<char> {
        self.news_url@
    }

    /// The fetcher invariant: the backdate window is non-negative.
    pub open spec fn wf(&self) -> bool {
        self.backdate_spec() >= 0
    }

    /// A fetcher whose first cutoff is `now - backdate_seconds`.
    pub fn new_at(locale: String, backdate_seconds: i64, now: i64) -> (fetcher: Self)
        requires
            backdate_seconds >= 0,
        ensures
            fetcher.wf(),
            fetcher.locale_spec() == locale@,
            fetcher.backdate_spec() == backdate_seconds as int,
            fetcher.news_url_spec() == news_query_url_spec(locale@, DEFAULT_PAGE_LIMIT as int),
            fetcher.filter_date_spec() == cutoff_from(now as int, backdate_seconds as int),
    {
        let news_url = make_news_url(locale.as_str(), DEFAULT_PAGE_LIMIT);
        let filter_date = compute_cutoff(now, backdate_seconds);
        NikkiNewsFetcher { filter_date, backdate_seconds, news_url, locale }
    }

    /// A fetcher whose first cutoff reaches back `backdate_seconds` from
    /// the current wall-clock time.
    pub fn new(locale: String, backdate_seconds: i64) -> (fetcher: Self)
        requires
            backdate_seconds >= 0,
        ensures
            fetcher.wf(),
            fetcher.locale_spec() == locale@,
            fetcher.backdate_spec() == backdate_seconds as int,
            fetcher.news_url_spec() == news_query_url_spec(locale@, DEFAULT_PAGE_LIMIT as int),
    {
        let now = now_unix_seconds();
        Self::new_at(locale, backdate_seconds, now)
    }

    /// The current cutoff: items at or before it are ignored.
    pub fn get_filter_date(&self) -> (cutoff: i64)
        ensures
            cutoff as int == self.filter_date_spec(),
    {
        self.filter_date
    }

    /// The URL this fetcher polls.
    pub fn get_news_url(&self) -> (url: &String)
        ensures
            url@ == self.news_url_spec(),
    {
        &self.news_url
    }

    /// Filter a decoded endpoint response down to the new, unposted items,
    /// newest-first, and advance the cutoff to `now - backdate`.
    pub fn fetch_unposted(
        &mut self,
        response: NikkiNewsResponse,
        database: &Database,
        now: i64,
    ) -> (posts: Vec<NikkiNewsPost>)
        requires
            old(self).wf(),
        ensures
            final(self).wf(),
            final(self).locale_spec() == old(self).locale_spec(),
            final(self).backdate_spec() == old(self).backdate_spec(),
            final(self).news_url_spec() == old(self).news_url_spec(),
            final(self).filter_date_spec() == cutoff_from(now as int, old(self).backdate_spec()),
            posts.deep_view() == fetch_pipeline(
                response.data.data.deep_view(),
                old(self).filter_date_spec(),
                database@,
                old(self).locale_spec(),
            ),
    {
        let items = response.data.data;
        let ghost dv = items.deep_view();

        // Keep the first occurrence of each id.
        let mut deduped: Vec<NikkiNewsDataInner> = Vec::new();
        let n = items.len();
        let mut i: usize = 0;
        while i < n
            invariant
                n == items@.len(),
                dv == items.deep_view(),
                0 <= i <= n,
                deduped.deep_view() == dedup_by_id(dv.take(i as int)),
            decreases n - i,
        {
            proof {
                assert(dv.take(i as int + 1).drop_last() =~= dv.take(i as int));
                assert(dv.take(i as int + 1).last() == dv[i as int]);
            }
            if !id_present_exec(&deduped, items[i].id) {
                let ghost pre = deduped.deep_view();
                deduped.push(items[i].clone());
                proof {
                    assert(deduped.deep_view() =~= pre.push(dv[i as int]));
                }
            }
            i += 1;
        }
        proof {
            assert(dv.take(n as int) =~= dv);
        }

        // Insertion sort, descending by id.
        let ghost ddv = deduped.deep_view();
        let m = deduped.len();
        let mut sorted: Vec<NikkiNewsDataInner> = Vec::new();
        let mut i: usize = 0;
        while i < m
            invariant
                m == deduped@.len(),
                ddv == deduped.deep_view(),
                0 <= i <= m,
                sorted.deep_view() == sort_desc_by_id(ddv.take(i as int)),
            decreases m - i,
        {
            let x = deduped[i].clone();
            let ghost spre = sorted.deep_view();
            let slen = sorted.len();
            let mut j: usize = 0;
            while j < slen && sorted[j].id > x.id
                invariant
                    slen == sorted@.len(),
                    spre == sorted.deep_view(),
                    0 <= j <= slen,
                    forall|k: int| 0 <= k < j ==> spre[k].id > x@.id,
                decreases slen - j,
            {
                proof {
                    assert(spre[j as int].id > x@.id);
                }
                j += 1;
            }
            sorted.insert(j, x);
            proof {
                assert(ddv.take(i as int + 1).drop_last() =~= ddv.take(i as int));
                assert(ddv.take(i as int + 1).last() == ddv[i as int]);
                lemma_insert_desc_at(spre, x@, j as int);
                assert(sorted.deep_view() =~= spre.insert(j as int, x@));
                assert(x@ == ddv[i as int]);
            }
            i += 1;
        }
        proof {
            assert(ddv.take(m as int) =~= ddv);
        }

        // Keep what is newer than the cutoff and not yet posted.
        let ghost sdv = sorted.deep_view();
        let ghost cutoff = self.filter_date as int;
        let ghost posted = database@;
        let k = sorted.len();
        let mut posts: Vec<NikkiNewsPost> = Vec::new();
        let mut i: usize = 0;
        while i < k
            invariant
                k == sorted@.len(),
                sdv == sorted.deep_view(),
                cutoff == self.filter_date as int,
                posted == database@,
                self.locale@ == old(self).locale_spec(),
                0 <= i <= k,
                posts.deep_view() == select_posts(sdv.take(i as int), cutoff, posted, self.locale@),
            decreases k - i,
        {
            proof {
                assert(sdv.take(i as int + 1).drop_last() =~= sdv.take(i as int));
                assert(sdv.take(i as int + 1).last() == sdv[i as int]);
            }
            if sorted[i].publish_time > self.filter_date {
                let link = canonical_link(self.locale.as_str(), sorted[i].id);
                if !database.has_posted_url(&link) {
                    let ghost ppre = posts.deep_view();
                    let post = NikkiNewsPost {
                        title: trim_string(&sorted[i].title),
                        publish_time: sorted[i].publish_time,
                        cover: sorted[i].cover.clone(),
                        summary: trim_string(&sorted[i].summary),
                        url: link,
                    };
                    proof {
                        assert(post@ == post_of_item(sdv[i as int], self.locale@));
                    }
                    posts.push(post);
                    proof {
                        assert(posts.deep_view() =~= ppre.push(post_of_item(
                            sdv[i as int],
                            self.locale@,
                        )));
                    }
                }
            }
            i += 1;
        }
        proof {
            assert(sdv.take(k as int) =~= sdv);
        }

        self.filter_date = compute_cutoff(now, self.backdate_seconds);
        posts
    }
}

/// Inserting in front of the first not-larger id is the same as inserting
/// at the position the scan found.
proof fn lemma_insert_desc_at(s: Seq<NewsItemModel>, x: NewsItemModel, j: int)
    requires
        0 <= j <= s.len(),
        forall|k: int| 0 <= k < j ==> s[k].id > x.id,
        j == s.len() || s[j].id <= x.id,
    ensures
        insert_desc(x, s) == s.insert(j, x),
    decreases j,
{
    if j == 0 {
        if s.len() == 0 {
            assert(insert_desc(x, s) =~= s.insert(0, x));
        } else {
            assert(x.id >= s[0].id);
            assert(seq![x] + s =~= s.insert(0, x));
        }
    } else {
        assert(s[0].id > x.id);
        let rest = s.drop_first();
        assert forall|k: int| 0 <= k < j - 1 implies rest[k].id > x.id by {
            assert(rest[k] == s[k + 1]);
        }
        if j - 1 < rest.len() {
            assert(rest[j - 1] == s[j]);
        }
        lemma_insert_desc_at(rest, x, j - 1);
        assert(seq![s[0]] + rest.insert(j - 1, x) =~= s.insert(j, x));
    }
}

/// Law (deduplication invariant): no post the fetch pipeline returns has a
/// URL that the ledger already holds.
pub proof fn lemma_fetch_excludes_posted(
    items: Seq<NewsItemModel>,
    cutoff: int,
    posted: Seq<Seq<char>>,
    locale: Seq<char>,
    i: int,
)
    requires
        0 <= i < fetch_pipeline(items, cutoff, posted, locale).len(),
    ensures
        !posted.contains(fetch_pipeline(items, cutoff, posted, locale)[i].url),
        fetch_pipeline(items, cutoff, posted, locale)[i].publish_time > cutoff,
{
    lemma_select_posts_kept(sort_desc_by_id(dedup_by_id(items)), cutoff, posted, locale, i);
}

/// Every post that the selection step returns comes from an item that
/// passed both the cutoff check and the ledger check.
proof fn lemma_select_posts_kept(
    items: Seq<NewsItemModel>,
    cutoff: int,
    posted: Seq<Seq<char>>,
    locale: Seq<char>,
    i: int,
)
    requires
        0 <= i < select_posts(items, cutoff, posted, locale).len(),
    ensures
        exists|k: int|
            0 <= k < items.len() && keeps_item(#[trigger] items[k], cutoff, posted, locale)
                && select_posts(items, cutoff, posted, locale)[i] == post_of_item(
                items[k],
                locale,
            ),
        !posted.contains(select_posts(items, cutoff, posted, locale)[i].url),
        select_posts(items, cutoff, posted, locale)[i].publish_time > cutoff,
    decreases items.len(),
{
    let out = select_posts(items, cutoff, posted, locale);
    let rest = select_posts(items.drop_last(), cutoff, posted, locale);
    if keeps_item(items.last(), cutoff, posted, locale) && i == rest.len() {
        assert(items[items.len() - 1] == items.last());
        assert(out[i] == post_of_item(items.last(), locale));
    } else {
        lemma_select_posts_kept(items.drop_last(), cutoff, posted, locale, i);
        let k = choose|k: int|
            0 <= k < items.drop_last().len() && keeps_item(
                #[trigger] items.drop_last()[k],
                cutoff,
                posted,
                locale,
            ) && rest[i] == post_of_item(items.drop_last()[k], locale);
        assert(items[k] == items.drop_last()[k]);
        assert(out[i] == rest[i]);
    }
}

/// Law (completeness): every deduplicated item that is newer than the
/// cutoff and whose canonical link the ledger does not hold yields a post
/// in the fetch result. The first occurrence of an id is the item
/// considered; a later repetition of the id is dropped by design.
pub proof fn lemma_fetch_complete(
    items: Seq<NewsItemModel>,
    cutoff: int,
    posted: Seq<Seq<char>>,
    locale: Seq<char>,
    item: NewsItemModel,
)
    requires
        dedup_by_id(items).contains(item),
        keeps_item(item, cutoff, posted, locale),
    ensures
        fetch_pipeline(items, cutoff, posted, locale).contains(post_of_item(item, locale)),
{
    lemma_sort_keeps_members(dedup_by_id(items), item);
    lemma_select_posts_complete(sort_desc_by_id(dedup_by_id(items)), cutoff, posted, locale, item);
}

/// Inserting keeps every previous member, and the inserted one.
proof fn lemma_insert_desc_members(x: NewsItemModel, sorted: Seq<NewsItemModel>, y: NewsItemModel)
    requires
        sorted.contains(y) || y == x,
    ensures
        insert_desc(x, sorted).contains(y),
    decreases sorted.len(),
{
    if sorted.len() == 0 {
        assert(insert_desc(x, sorted)[0] == x);
    } else if x.id >= sorted[0].id {
        let out = seq![x] + sorted;
        if y == x {
            assert(out[0] == y);
        } else {
            let k = choose|k: int| 0 <= k < sorted.len() && sorted[k] == y;
            assert(out[k + 1] == y);
        }
    } else {
        let rest = sorted.drop_first();
        let out = seq![sorted[0]] + insert_desc(x, rest);
        if y == sorted[0] {
            assert(out[0] == y);
        } else {
            if sorted.contains(y) {
                let k = choose|k: int| 0 <= k < sorted.len() && sorted[k] == y;
                assert(k > 0);
                assert(rest[k - 1] == y);
            }
            lemma_insert_desc_members(x, rest, y);
            let k = choose|k: int| 0 <= k < insert_desc(x, rest).len() && insert_desc(x, rest)[k] == y;
            assert(out[k + 1] == y);
        }
    }
}

/// Sorting keeps every member.
proof fn lemma_sort_keeps_members(items: Seq<NewsItemModel>, item: NewsItemModel)
    requires
        items.contains(item),
    ensures
        sort_desc_by_id(items).contains(item),
    decreases items.len(),
{
    if items.last() == item {
        lemma_insert_desc_members(item, sort_desc_by_id(items.drop_last()), item);
    } else {
        let k = choose|k: int| 0 <= k < items.len() && items[k] == item;
        assert(k < items.len() - 1);
        assert(items.drop_last()[k] == item);
        lemma_sort_keeps_members(items.drop_last(), item);
        lemma_insert_desc_members(items.last(), sort_desc_by_id(items.drop_last()), item);
    }
}

/// Every surviving item's post is in the selection result.
proof fn lemma_select_posts_complete(
    items: Seq<NewsItemModel>,
    cutoff: int,
    posted: Seq<Seq<char>>,
    locale: Seq<char>,
    item: NewsItemModel,
)
    requires
        items.contains(item),
        keeps_item(item, cutoff, posted, locale),
    ensures
        select_posts(items, cutoff, posted, locale).contains(post_of_item(item, locale)),
    decreases items.len(),
{
    let out = select_posts(items, cutoff, posted, locale);
    let rest = select_posts(items.drop_last(), cutoff, posted, locale);
    if items.last() == item {
        assert(out[rest.len() as int] == post_of_item(item, locale));
    } else {
        let k = choose|k: int| 0 <= k < items.len() && items[k] == item;
        assert(k < items.len() - 1);
        assert(items.drop_last()[k] == item);
        lemma_select_posts_complete(items.drop_last(), cutoff, posted, locale, item);
        let j = choose|j: int| 0 <= j < rest.len() && rest[j] == post_of_item(item, locale);
        assert(out[j] == post_of_item(item, locale));
    }
}

/// Everything `insert_desc` returns is the inserted item or one of the
/// items it was inserted among.
proof fn lemma_insert_desc_member_source(x: NewsItemModel, sorted: Seq<NewsItemModel>, k: int)
    requires
        0 <= k < insert_desc(x, sorted).len(),
    ensures
        insert_desc(x, sorted)[k] == x || sorted.contains(insert_desc(x, sorted)[k]),
    decreases sorted.len(),
{
    if sorted.len() == 0 {
    } else if x.id >= sorted[0].id {
        let out = seq![x] + sorted;
        if k > 0 {
            assert(out[k] == sorted[k - 1]);
        }
    } else {
        let rest = sorted.drop_first();
        let out = seq![sorted[0]] + insert_desc(x, rest);
        if k == 0 {
            assert(out[0] == sorted[0]);
        } else {
            lemma_insert_desc_member_source(x, rest, k - 1);
            if rest.contains(out[k]) {
                let m = choose|m: int| 0 <= m < rest.len() && rest[m] == out[k];
                assert(sorted[m + 1] == out[k]);
            }
        }
    }
}

/// Inserting into a descending sequence keeps it descending.
proof fn lemma_insert_desc_keeps_order(x: NewsItemModel, sorted: Seq<NewsItemModel>)
    requires
        forall|a: int, b: int| 0 <= a < b < sorted.len() ==> sorted[a].id >= sorted[b].id,
    ensures
        forall|a: int, b: int|
            0 <= a < b < insert_desc(x, sorted).len() ==> insert_desc(x, sorted)[a].id
                >= insert_desc(x, sorted)[b].id,
    decreases sorted.len(),
{
    let out = insert_desc(x, sorted);
    if sorted.len() == 0 {
    } else if x.id >= sorted[0].id {
        assert forall|a: int, b: int| 0 <= a < b < out.len() implies out[a].id >= out[b].id by {
            if a == 0 {
                assert(out[b] == sorted[b - 1]);
                if b > 1 {
                    assert(sorted[0].id >= sorted[b - 1].id);
                }
            } else {
                assert(out[a] == sorted[a - 1]);
                assert(out[b] == sorted[b - 1]);
            }
        }
    } else {
        let rest = sorted.drop_first();
        lemma_insert_desc_keeps_order(x, rest);
        let inner = insert_desc(x, rest);
        assert forall|a: int, b: int| 0 <= a < b < out.len() implies out[a].id >= out[b].id by {
            if a == 0 {
                assert(out[b] == inner[b - 1]);
                lemma_insert_desc_member_source(x, rest, b - 1);
                if rest.contains(inner[b - 1]) {
                    let m = choose|m: int| 0 <= m < rest.len() && rest[m] == inner[b - 1];
                    assert(sorted[0].id >= sorted[m + 1].id);
                }
            } else {
                assert(out[a] == inner[a - 1]);
                assert(out[b] == inner[b - 1]);
            }
        }
    }
}

/// Law (newest-first ordering): the sorting stage of the fetch pipeline
/// orders items descending by id, the documented stand-in for "newer".
pub proof fn lemma_sort_desc_by_id_sorted(items: Seq<NewsItemModel>, i: int, j: int)
    requires
        0 <= i < j < sort_desc_by_id(items).len(),
    ensures
        sort_desc_by_id(items)[i].id >= sort_desc_by_id(items)[j].id,
    decreases items.len(),
{
    lemma_sort_desc_by_id_order(items);
}

/// The sorting stage returns a descending sequence.
proof fn lemma_sort_desc_by_id_order(items: Seq<NewsItemModel>)
    ensures
        forall|a: int, b: int|
            0 <= a < b < sort_desc_by_id(items).len() ==> sort_desc_by_id(items)[a].id
                >= sort_desc_by_id(items)[b].id,
    decreases items.len(),
{
    if items.len() > 0 {
        lemma_sort_desc_by_id_order(items.drop_last());
        lemma_insert_desc_keeps_order(items.last(), sort_desc_by_id(items.drop_last()));
    }
}

/// Law: deduplication leaves pairwise-distinct ids — no two deduplicated
/// items share an id.
pub proof fn lemma_dedup_distinct_ids(items: Seq<NewsItemModel>, i: int, j: int)
    requires
        0 <= i < j < dedup_by_id(items).len(),
    ensures
        dedup_by_id(items)[i].id != dedup_by_id(items)[j].id,
    decreases items.len(),
{
    let out = dedup_by_id(items);
    let rest = dedup_by_id(items.drop_last());
    if id_present(rest, items.last().id) {
        lemma_dedup_distinct_ids(items.drop_last(), i, j);
    } else if j < rest.len() {
        lemma_dedup_distinct_ids(items.drop_last(), i, j);
    } else {
        assert(out[i] == rest[i]);
        assert(out[j] == items.last());
        if rest[i].id == items.last().id {
            assert(id_present(rest, items.last().id));
        }
    }
}

/// The position where `insert_desc` places its item.
spec fn insert_pos(x: NewsItemModel, sorted: Seq<NewsItemModel>) -> int
    decreases sorted.len(),
{
    if sorted.len() == 0 {
        0
    } else if x.id >= sorted[0].id {
        0
    } else {
        1 + insert_pos(x, sorted.drop_first())
    }
}

/// `insert_desc` is insertion at that position.
proof fn lemma_insert_desc_is_insert(x: NewsItemModel, sorted: Seq<NewsItemModel>)
    ensures
        0 <= insert_pos(x, sorted) <= sorted.len(),
        insert_desc(x, sorted) == sorted.insert(insert_pos(x, sorted), x),
    decreases sorted.len(),
{
    if sorted.len() == 0 {
        assert(insert_desc(x, sorted) =~= sorted.insert(0, x));
    } else if x.id >= sorted[0].id {
        assert(seq![x] + sorted =~= sorted.insert(0, x));
    } else {
        let rest = sorted.drop_first();
        lemma_insert_desc_is_insert(x, rest);
        let j = insert_pos(x, rest);
        assert(seq![sorted[0]] + rest.insert(j, x) =~= sorted.insert(j + 1, x));
    }
}

/// Everything the sorting stage returns comes from the input.
proof fn lemma_sort_member_source(items: Seq<NewsItemModel>, k: int)
    requires
        0 <= k < sort_desc_by_id(items).len(),
    ensures
        items.contains(sort_desc_by_id(items)[k]),
    decreases items.len(),
{
    if items.len() > 0 {
        let prev = sort_desc_by_id(items.drop_last());
        lemma_insert_desc_member_source(items.last(), prev, k);
        let y = sort_desc_by_id(items)[k];
        if y == items.last() {
            assert(items[items.len() - 1] == y);
        } else {
            let m = choose|m: int| 0 <= m < prev.len() && prev[m] == y;
            lemma_sort_member_source(items.drop_last(), m);
            let t = choose|t: int|
                0 <= t < items.drop_last().len() && items.drop_last()[t] == y;
            assert(items[t] == y);
        }
    }
}

/// Sorting keeps ids pairwise distinct.
proof fn lemma_sort_keeps_distinct_ids(items: Seq<NewsItemModel>)
    requires
        forall|a: int, b: int| 0 <= a < b < items.len() ==> items[a].id != items[b].id,
    ensures
        forall|a: int, b: int|
            0 <= a < b < sort_desc_by_id(items).len() ==> sort_desc_by_id(items)[a].id
                != sort_desc_by_id(items)[b].id,
    decreases items.len(),
{
    if items.len() > 0 {
        let rest = items.drop_last();
        let prev = sort_desc_by_id(rest);
        assert forall|a: int, b: int| 0 <= a < b < rest.len() implies rest[a].id != rest[b].id by {
            assert(items[a].id != items[b].id);
        }
        lemma_sort_keeps_distinct_ids(rest);
        lemma_insert_desc_is_insert(items.last(), prev);
        let p = insert_pos(items.last(), prev);
        let out = sort_desc_by_id(items);
        prev.insert_ensures(p, items.last());
        assert forall|a: int, b: int| 0 <= a < b < out.len() implies out[a].id != out[b].id by {
            let ai = if a < p {
                a
            } else {
                a - 1
            };
            let bi = if b < p {
                b
            } else {
                b - 1
            };
            if a == p || b == p {
                let m = if a == p {
                    bi
                } else {
                    ai
                };
                assert(0 <= m < prev.len());
                lemma_sort_member_source(rest, m);
                let t = choose|t: int| 0 <= t < rest.len() && rest[t] == prev[m];
                assert(items[t].id != items[items.len() - 1].id);
            } else {
                if a < p {
                    assert(out[a] == prev[a]);
                } else {
                    assert(out[(a - 1) + 1] == prev[a - 1]);
                }
                if b < p {
                    assert(out[b] == prev[b]);
                } else {
                    assert(out[(b - 1) + 1] == prev[b - 1]);
                }
                assert(prev[ai].id != prev[bi].id);
            }
        }
    }
}

/// Law (strict newest-first ordering): after deduplication, the sorting
/// stage orders items strictly descending by id — no two survivors share
/// an id, so no two returned posts stem from the same item.
pub proof fn lemma_fetch_order_strict(items: Seq<NewsItemModel>, i: int, j: int)
    requires
        0 <= i < j < sort_desc_by_id(dedup_by_id(items)).len(),
    ensures
        sort_desc_by_id(dedup_by_id(items))[i].id > sort_desc_by_id(dedup_by_id(items))[j].id,
{
    let deduped = dedup_by_id(items);
    lemma_sort_desc_by_id_order(deduped);
    assert forall|a: int, b: int| 0 <= a < b < deduped.len() implies deduped[a].id
        != deduped[b].id by {
        lemma_dedup_distinct_ids(items, a, b);
    }
    lemma_sort_keeps_distinct_ids(deduped);
}

/// An id present anywhere in the input is present among the deduplicated
/// items, so deduplication never loses an id, only repetitions of it.
pub proof fn lemma_dedup_keeps_ids(items: Seq<NewsItemModel>, id: int)
    requires
        id_present(items, id),
    ensures
        id_present(dedup_by_id(items), id),
    decreases items.len(),
{
    let rest = dedup_by_id(items.drop_last());
    if items.last().id == id {
        if !id_present(rest, id) {
            let out = rest.push(items.last());
            assert(out[out.len() - 1].id == id);
        }
    } else {
        let k = choose|k: int| 0 <= k < items.len() && items[k].id == id;
        assert(k < items.len() - 1);
        assert(items.drop_last()[k].id == id);
        lemma_dedup_keeps_ids(items.drop_last(), id);
        let j = choose|j: int| 0 <= j < rest.len() && rest[j].id == id;
        if !id_present(rest, items.last().id) {
            assert(rest.push(items.last())[j].id == id);
        }
    }
}

} // verus!
