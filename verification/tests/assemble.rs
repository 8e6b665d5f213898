//! Tests of post assembly: the text formula, the embed fallbacks, and
//! the candidate conversions.

use skywrite::bsky::assemble_post;
use skywrite::bsky::CandidateItem;
use skywrite::bsky::PageMetadata;
use skywrite::fetcher::NikkiNewsPost;
use skywrite::rss::FeedEntry;

fn languages() -> Vec<String> {
    vec!["en".to_string(), "ja".to_string()]
}

fn full_item() -> CandidateItem {
    CandidateItem {
        title: Some("A title".to_string()),
        link: "https://example.com/a".to_string(),
        publish_time: Some(1234),
        summary: Some("A summary".to_string()),
        cover_image: Some("https://example.com/a.png".to_string()),
    }
}

#[test]
fn assemble_uses_item_metadata() {
    let post = assemble_post(&full_item(), &languages(), &None, 9999);
    assert_eq!(post.text, "A title - https://example.com/a");
    assert_eq!(post.languages, languages());
    assert_eq!(post.created_at, 1234);
    let embed = post.embed.unwrap();
    assert_eq!(embed.title, "A title");
    assert_eq!(embed.description, "A summary");
    assert_eq!(embed.uri, "https://example.com/a");
    assert_eq!(embed.thumbnail_url.as_deref(), Some("https://example.com/a.png"));
}

#[test]
fn assemble_strips_markup_from_summary() {
    let mut item = full_item();
    item.summary = Some("<p>Version <b>1.2</b> is out.</p>".to_string());
    let post = assemble_post(&item, &languages(), &None, 9999);
    let embed = post.embed.unwrap();
    assert_eq!(embed.description, "Version 1.2 is out.");
}

#[test]
fn assemble_without_summary_or_enrichment_uses_fixed_fallback() {
    let mut item = full_item();
    item.summary = None;
    let post = assemble_post(&item, &languages(), &None, 9999);
    let embed = post.embed.unwrap();
    assert_eq!(embed.description, "This site has not provided a description");
}

#[test]
fn assemble_prefers_enrichment_over_fallback() {
    let mut item = full_item();
    item.summary = None;
    item.cover_image = None;
    let enrichment = Some(PageMetadata {
        description: Some("Scraped description".to_string()),
        thumbnail: Some("https://example.com/preview.png".to_string()),
    });
    let post = assemble_post(&item, &languages(), &enrichment, 9999);
    let embed = post.embed.unwrap();
    assert_eq!(embed.description, "Scraped description");
    assert_eq!(embed.thumbnail_url.as_deref(), Some("https://example.com/preview.png"));
}

#[test]
fn assemble_enrichment_without_fields_still_falls_back() {
    let mut item = full_item();
    item.summary = None;
    item.cover_image = None;
    let enrichment = Some(PageMetadata { description: None, thumbnail: None });
    let post = assemble_post(&item, &languages(), &enrichment, 9999);
    let embed = post.embed.unwrap();
    assert_eq!(embed.description, "This site has not provided a description");
    assert!(embed.thumbnail_url.is_none());
}

#[test]
fn assemble_without_title_uses_fallbacks() {
    let mut item = full_item();
    item.title = None;
    let post = assemble_post(&item, &languages(), &None, 9999);
    assert_eq!(post.text, "New post - https://example.com/a");
    let embed = post.embed.unwrap();
    assert_eq!(embed.title, "https://example.com/a");
}

#[test]
fn assemble_without_publish_time_uses_now() {
    let mut item = full_item();
    item.publish_time = None;
    let post = assemble_post(&item, &languages(), &None, 4242);
    assert_eq!(post.created_at, 4242);
}

#[test]
fn candidate_from_news_post_carries_every_field() {
    let news = NikkiNewsPost {
        url: "https://example.com/n/5".to_string(),
        title: "Five".to_string(),
        publish_time: 55,
        cover: "https://example.com/5.png".to_string(),
        summary: "about five".to_string(),
    };
    let item = CandidateItem::from_news_post(&news);
    assert_eq!(item.title.as_deref(), Some("Five"));
    assert_eq!(item.link, "https://example.com/n/5");
    assert_eq!(item.publish_time, Some(55));
    assert_eq!(item.summary.as_deref(), Some("about five"));
    assert_eq!(item.cover_image.as_deref(), Some("https://example.com/5.png"));
}

#[test]
fn candidate_from_feed_entry_needs_a_link() {
    let entry = FeedEntry {
        title: Some("Entry".to_string()),
        link: Some("https://example.com/e".to_string()),
        published: Some(77),
        summary: None,
    };
    let item = CandidateItem::from_feed_entry(&entry).unwrap();
    assert_eq!(item.link, "https://example.com/e");
    assert_eq!(item.publish_time, Some(77));
    assert!(item.cover_image.is_none());

    let linkless = FeedEntry { title: None, link: None, published: Some(1), summary: None };
    assert!(CandidateItem::from_feed_entry(&linkless).is_none());
}
