//! Tests of the timed-API fetch pipeline: id deduplication, newest-first
//! ordering, cutoff and ledger filtering, and the text helpers it rests
//! on.

use skywrite::fetcher::canonical_link;
use skywrite::fetcher::NikkiNewsData;
use skywrite::fetcher::NikkiNewsDataInner;
use skywrite::fetcher::NikkiNewsFetcher;
use skywrite::fetcher::NikkiNewsResponse;
use skywrite::textfmt::join_strings;
use skywrite::textfmt::strip_html_text;
use skywrite::textfmt::trim_string;
use skywrite::textfmt::trim_trailing_slash;
use skywrite::textfmt::u64_to_dec;
use skywrite::Database;

fn item(id: u64, publish_time: i64, title: &str) -> NikkiNewsDataInner {
    NikkiNewsDataInner {
        id,
        title: title.to_string(),
        section: 1,
        publish_time,
        cover: format!("https://cdn.example.com/{}.png", id),
        summary: format!("summary {}", id),
    }
}

fn response(items: Vec<NikkiNewsDataInner>) -> NikkiNewsResponse {
    NikkiNewsResponse { data: NikkiNewsData { total: items.len() as u64, data: items } }
}

#[test]
fn fetch_dedups_by_id_and_sorts_descending() {
    // Items arrive as ids [5, 3, 5]; the repeated id keeps its first
    // occurrence, and the result is ordered newest-first by id.
    let mut fetcher = NikkiNewsFetcher::new_at("en".to_string(), 0, 1000);
    let db = Database::new();
    let items = vec![item(5, 2000, "five"), item(3, 2000, "three"), item(5, 2000, "five again")];
    let posts = fetcher.fetch_unposted(response(items), &db, 1000);
    assert_eq!(posts.len(), 2);
    assert_eq!(posts[0].url, "https://infinitynikki.infoldgames.com/en/news/5");
    assert_eq!(posts[0].title, "five");
    assert_eq!(posts[1].url, "https://infinitynikki.infoldgames.com/en/news/3");
    assert_eq!(posts[1].title, "three");
}

#[test]
fn fetch_excludes_items_at_or_before_cutoff() {
    let mut fetcher = NikkiNewsFetcher::new_at("en".to_string(), 0, 1000);
    let db = Database::new();
    let items = vec![item(1, 999, "old"), item(2, 1000, "boundary"), item(3, 1001, "new")];
    let posts = fetcher.fetch_unposted(response(items), &db, 1000);
    assert_eq!(posts.len(), 1);
    assert_eq!(posts[0].url, "https://infinitynikki.infoldgames.com/en/news/3");
}

#[test]
fn fetch_excludes_urls_already_in_ledger() {
    let mut fetcher = NikkiNewsFetcher::new_at("en".to_string(), 0, 0);
    let mut db = Database::new();
    let posted = "https://infinitynikki.infoldgames.com/en/news/7".to_string();
    assert!(db.add_posted_url(&posted).is_ok());
    let items = vec![item(7, 100, "seven"), item(8, 100, "eight")];
    let posts = fetcher.fetch_unposted(response(items), &db, 0);
    assert_eq!(posts.len(), 1);
    assert_eq!(posts[0].url, "https://infinitynikki.infoldgames.com/en/news/8");
    for p in &posts {
        assert!(!db.has_posted_url(&p.url));
    }
}

#[test]
fn fetch_keeps_every_new_unposted_item() {
    let mut fetcher = NikkiNewsFetcher::new_at("en".to_string(), 0, 0);
    let db = Database::new();
    let items = vec![item(1, 50, "a"), item(2, 60, "b"), item(3, 70, "c")];
    let posts = fetcher.fetch_unposted(response(items), &db, 0);
    assert_eq!(posts.len(), 3);
    assert_eq!(posts[0].url, "https://infinitynikki.infoldgames.com/en/news/3");
    assert_eq!(posts[1].url, "https://infinitynikki.infoldgames.com/en/news/2");
    assert_eq!(posts[2].url, "https://infinitynikki.infoldgames.com/en/news/1");
}

#[test]
fn fetch_trims_title_and_summary() {
    let mut fetcher = NikkiNewsFetcher::new_at("en".to_string(), 0, 0);
    let db = Database::new();
    let mut it = item(1, 50, "  Padded title \n");
    it.summary = "\u{3000}wide space summary\u{3000}".to_string();
    let posts = fetcher.fetch_unposted(response(vec![it]), &db, 0);
    assert_eq!(posts[0].title, "Padded title");
    assert_eq!(posts[0].summary, "wide space summary");
}

#[test]
fn fetch_advances_cutoff_to_now_minus_backdate() {
    let mut fetcher = NikkiNewsFetcher::new_at("en".to_string(), 3600, 10000);
    assert_eq!(fetcher.get_filter_date(), 10000 - 3600);
    let db = Database::new();
    let _ = fetcher.fetch_unposted(response(vec![]), &db, 20000);
    assert_eq!(fetcher.get_filter_date(), 20000 - 3600);
}

#[test]
fn news_url_carries_limit_and_locale() {
    let fetcher = NikkiNewsFetcher::new_at("ja".to_string(), 0, 0);
    assert_eq!(
        fetcher.get_news_url().as_str(),
        "https://infinitynikki.infoldgames.com/api/news?offset=0&limit=20&locale=ja"
    );
}

#[test]
fn canonical_link_formula() {
    assert_eq!(canonical_link("en", 0), "https://infinitynikki.infoldgames.com/en/news/0");
    assert_eq!(canonical_link("kr", 12345), "https://infinitynikki.infoldgames.com/kr/news/12345");
}

#[test]
fn decimal_rendering() {
    assert_eq!(u64_to_dec(0), "0");
    assert_eq!(u64_to_dec(7), "7");
    assert_eq!(u64_to_dec(10), "10");
    assert_eq!(u64_to_dec(1234567890), "1234567890");
    assert_eq!(u64_to_dec(u64::MAX), "18446744073709551615");
}

#[test]
fn trimming_strips_unicode_white_space() {
    assert_eq!(trim_string(&" \t\r\n x y \u{a0}".to_string()), "x y");
    assert_eq!(trim_string(&"   ".to_string()), "");
    assert_eq!(trim_string(&"".to_string()), "");
    assert_eq!(trim_string(&"plain".to_string()), "plain");
}

#[test]
fn stripping_markup_keeps_the_text_between_tags() {
    assert_eq!(strip_html_text(&"plain text".to_string()), "plain text");
    assert_eq!(strip_html_text(&"<p>a<br/>b</p>".to_string()), "ab");
    assert_eq!(strip_html_text(&"x<a href=\"u\">y</a>z".to_string()), "xyz");
    assert_eq!(strip_html_text(&"<unclosed".to_string()), "");
    assert_eq!(strip_html_text(&"".to_string()), "");
}

#[test]
fn trimming_a_trailing_slash() {
    assert_eq!(trim_trailing_slash(&"https://bsky.social/".to_string()), "https://bsky.social");
    assert_eq!(trim_trailing_slash(&"https://bsky.social".to_string()), "https://bsky.social");
    assert_eq!(trim_trailing_slash(&"//".to_string()), "/");
    assert_eq!(trim_trailing_slash(&"".to_string()), "");
}

#[test]
fn joining_with_separator() {
    assert_eq!(join_strings(&vec![], ","), "");
    assert_eq!(join_strings(&vec!["a".to_string()], ","), "a");
    assert_eq!(join_strings(&vec!["a".to_string(), "b".to_string()], ","), "a,b");
}
