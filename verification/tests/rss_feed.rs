//! Tests of the RSS source: the publish-time, link and ledger filters,
//! feed order, the skipped cycle on a failed fetch or parse, and the
//! whole path with entries parsed out of real feed bytes.

use skywrite::rss::FeedEntry;
use skywrite::rss::FetchError;
use skywrite::rss::RssHandler;
use skywrite::Database;

// 2025-01-01T00:00:00Z and 2019-01-01T00:00:00Z.
const NEW_TS: i64 = 1735689600;
const OLD_TS: i64 = 1546300800;

fn entry(title: &str, link: Option<&str>, published: Option<i64>) -> FeedEntry {
    FeedEntry {
        title: Some(title.to_string()),
        link: link.map(|l| l.to_string()),
        published,
        summary: Some(format!("summary of {}", title)),
    }
}

/// Parse feed bytes the way the host process does: through the real feed
/// parser, carrying over each entry's title, first link, publish time and
/// summary; a parse failure becomes the fetch-failed outcome.
fn parse(bytes: &[u8]) -> Result<Vec<FeedEntry>, FetchError> {
    match feed_rs::parser::parse(bytes) {
        Ok(feed) => Ok(feed
            .entries
            .into_iter()
            .map(|e| FeedEntry {
                title: e.title.map(|t| t.content),
                link: e.links.first().map(|l| l.href.clone()),
                published: e.published.map(|d| d.timestamp()),
                summary: e.summary.map(|t| t.content),
            })
            .collect()),
        Err(_) => Err(FetchError::FetchFailed),
    }
}

fn feed_bytes() -> Vec<u8> {
    let xml = "<?xml version=\"1.0\" encoding=\"UTF-8\"?>\
<rss version=\"2.0\"><channel>\
<title>Example feed</title>\
<link>https://example.com</link>\
<description>example</description>\
<item><title>Fresh</title><link>https://example.com/fresh</link>\
<pubDate>Wed, 01 Jan 2025 00:00:00 GMT</pubDate>\
<description>a fresh item</description></item>\
<item><title>Undated</title><link>https://example.com/undated</link>\
<description>no publish time</description></item>\
<item><title>Stale</title><link>https://example.com/stale</link>\
<pubDate>Tue, 01 Jan 2019 00:00:00 GMT</pubDate>\
<description>an old item</description></item>\
<item><title>Known</title><link>https://example.com/known</link>\
<pubDate>Wed, 01 Jan 2025 00:00:00 GMT</pubDate>\
<description>already posted</description></item>\
</channel></rss>";
    xml.as_bytes().to_vec()
}

#[test]
fn rss_filters_by_date_link_and_ledger() {
    // Cutoff sits between the stale and fresh publish dates; the ledger
    // already holds the "known" link.
    let mut handler = RssHandler::new_at("https://example.com/feed".to_string(), 0, 1600000000);
    let mut db = Database::new();
    assert!(db.add_posted_url(&"https://example.com/known".to_string()).is_ok());

    let entries = handler.fetch_unposted(parse(&feed_bytes()), &db, 1600000000).unwrap();
    assert_eq!(entries.len(), 1);
    let kept = &entries[0];
    assert_eq!(kept.title.as_deref(), Some("Fresh"));
    assert_eq!(kept.link.as_deref(), Some("https://example.com/fresh"));
    assert_eq!(kept.published, Some(NEW_TS));
    assert_eq!(kept.summary.as_deref(), Some("a fresh item"));
}

#[test]
fn rss_entry_without_publish_time_is_excluded() {
    // Even a cutoff far in the past does not admit an undated entry.
    let mut handler = RssHandler::new_at("https://example.com/feed".to_string(), 0, i64::MIN + 1);
    let db = Database::new();
    let input = vec![
        entry("Undated", Some("https://example.com/undated"), None),
        entry("Dated", Some("https://example.com/dated"), Some(OLD_TS)),
    ];
    let entries = handler.fetch_unposted(Ok(input), &db, 0).unwrap();
    assert_eq!(entries.len(), 1);
    assert_eq!(entries[0].link.as_deref(), Some("https://example.com/dated"));
}

#[test]
fn rss_entry_without_link_is_excluded() {
    let mut handler = RssHandler::new_at("https://example.com/feed".to_string(), 0, i64::MIN + 1);
    let db = Database::new();
    let input = vec![
        entry("Linkless", None, Some(NEW_TS)),
        entry("Linked", Some("https://example.com/linked"), Some(NEW_TS)),
    ];
    let entries = handler.fetch_unposted(Ok(input), &db, 0).unwrap();
    assert_eq!(entries.len(), 1);
    assert_eq!(entries[0].link.as_deref(), Some("https://example.com/linked"));
}

#[test]
fn rss_keeps_feed_order() {
    let mut handler = RssHandler::new_at("https://example.com/feed".to_string(), 0, i64::MIN + 1);
    let db = Database::new();
    let entries = handler.fetch_unposted(parse(&feed_bytes()), &db, 0).unwrap();
    let links: Vec<&str> = entries.iter().map(|e| e.link.as_deref().unwrap()).collect();
    assert_eq!(
        links,
        vec!["https://example.com/fresh", "https://example.com/stale", "https://example.com/known"]
    );
}

#[test]
fn rss_parse_failure_skips_cycle_and_keeps_cutoff() {
    let mut handler = RssHandler::new_at("https://example.com/feed".to_string(), 0, 12345);
    let db = Database::new();
    let before = handler.get_filter_date();
    let parsed = parse(b"this is not a feed");
    assert_eq!(parsed.as_ref().unwrap_err(), &FetchError::FetchFailed);
    let result = handler.fetch_unposted(parsed, &db, 99999);
    assert_eq!(result.unwrap_err(), FetchError::FetchFailed);
    assert_eq!(handler.get_filter_date(), before);
}

#[test]
fn rss_success_advances_cutoff() {
    let mut handler = RssHandler::new_at("https://example.com/feed".to_string(), 3600, 1600000000);
    assert_eq!(handler.get_filter_date(), 1600000000 - 3600);
    let db = Database::new();
    let _ = handler.fetch_unposted(parse(&feed_bytes()), &db, 1700000000).unwrap();
    assert_eq!(handler.get_filter_date(), 1700000000 - 3600);
    assert_eq!(handler.get_feed().as_str(), "https://example.com/feed");
}
