//! Normalized post payloads and their assembly.
//!
//! A candidate item — from either source — is turned into a `PostData`:
//! the post text is `"{title} - {link}"`, and the link-preview embed is
//! filled from the item with fixed fallbacks where metadata is missing.
//! Enrichment (page metadata looked up outside the library) is consulted
//! only where the item itself offers nothing; its absence is never an
//! error. The network client that publishes a `PostData` lives outside
//! the library.

use crate::fetcher::NikkiNewsPost;
use crate::fetcher::NewsPostModel;
use crate::rss::FeedEntry;
use crate::textfmt::clone_opt_string;
use crate::textfmt::clone_string_vec;
use crate::textfmt::strip_html;
use crate::textfmt::strip_html_text;
use vstd::prelude::*;
use vstd::string::StringExecFns;

verus! {

/// A link-preview embed attached to a post.
#[derive(Debug)]
pub struct PostEmbed {
    pub title: String,
    pub description: String,
    pub uri: String,
    pub thumbnail_url: Option<String>,
}

/// A normalized post payload, ready for the publishing client.
#[derive(Debug)]
pub struct PostData {
    pub text: String,
    pub languages: Vec<String>,
    /// Unix seconds.
    pub created_at: i64,
    pub embed: Option<PostEmbed>,
}

/// Page metadata from the enrichment lookup: what an external scrape of
/// the linked page offered, if anything.
#[derive(Debug)]
pub struct PageMetadata {
    pub description: Option<String>,
    pub thumbnail: Option<String>,
}

/// A source item reduced to what assembly reads.
#[derive(Debug)]
pub struct CandidateItem {
    pub title: Option<String>,
    pub link: String,
    /// Unix seconds.
    pub publish_time: Option<i64>,
    pub summary: Option<String>,
    pub cover_image: Option<String>,
}

/// The mathematical model of an embed.
pub struct PostEmbedModel {
    pub title: Seq<char>,
    pub description: Seq<char>,
    pub uri: Seq<char>,
    pub thumbnail_url: Option<Seq<char>>,
}

/// The mathematical model of a post payload.
pub struct PostDataModel {
    pub text: Seq<char>,
    pub languages: Seq<Seq<char>>,
    pub created_at: int,
    pub embed: Option<PostEmbedModel>,
}

/// The mathematical model of page metadata.
pub struct PageMetadataModel {
    pub description: Option<Seq<char>>,
    pub thumbnail: Option<Seq<char>>,
}

/// The mathematical model of a candidate item.
pub struct CandidateItemModel {
    pub title: Option<Seq<char>>,
    pub link: Seq<char>,
    pub publish_time: Option<int>,
    pub summary: Option<Seq<char>>,
    pub cover_image: Option<Seq<char>>,
}

impl View for PostEmbed {
    type V = PostEmbedModel;

    open spec fn view(&self) -> PostEmbedModel {
        PostEmbedModel {
            title: self.title@,
            description: self.description@,
            uri: self.uri@,
            thumbnail_url: match self.thumbnail_url {
                Some(t) => Some(t@),
                None => None,
            },
        }
    }
}

impl View for PostData {
    type V = PostDataModel;

    open spec fn view(&self) -> PostDataModel {
        PostDataModel {
            text: self.text@,
            languages: self.languages.deep_view(),
            created_at: self.created_at as int,
            embed: match self.embed {
                Some(e) => Some(e@),
                None => None,
            },
        }
    }
}

impl View for PageMetadata {
    type V = PageMetadataModel;

    open spec fn view(&self) -> PageMetadataModel {
        PageMetadataModel {
            description: match self.description {
                Some(d) => Some(d@),
                None => None,
            },
            thumbnail: match self.thumbnail {
                Some(t) => Some(t@),
                None => None,
            },
        }
    }
}

impl View for CandidateItem {
    type V = CandidateItemModel;

    open spec fn view(&self) -> CandidateItemModel {
        CandidateItemModel {
            title: match self.title {
                Some(t) => Some(t@),
                None => None,
            },
            link: self.link@,
            publish_time: match self.publish_time {
                Some(p) => Some(p as int),
                None => None,
            },
            summary: match self.summary {
                Some(s) => Some(s@),
                None => None,
            },
            cover_image: match self.cover_image {
                Some(c) => Some(c@),
                None => None,
            },
        }
    }
}

/// The title used when an item has none.
pub open spec fn fallback_title() -> Seq<char> {
    "New post"@
}

/// The embed description used when neither the item nor enrichment offers
/// one.
pub open spec fn fallback_description() -> Seq<char> {
    "This site has not provided a description"@
}

/// The post text: `"{title} - {link}"`, with the fallback title for items
/// without one.
pub open spec fn assembled_text(title: Option<Seq<char>>, link: Seq<char>) -> Seq<char> {
    (match title {
        Some(t) => t,
        None => fallback_title(),
    }) + " - "@ + link
}

/// The embed title: the item's title, or the link itself.
pub open spec fn embed_title(title: Option<Seq<char>>, link: Seq<char>) -> Seq<char> {
    match title {
        Some(t) => t,
        None => link,
    }
}

/// The embed description: the item's summary stripped of markup tags to
/// plain text, else the enrichment's description, else the fixed
/// fallback.
pub open spec fn embed_description(
    summary: Option<Seq<char>>,
    enrichment: Option<PageMetadataModel>,
) -> Seq<char> {
    match summary {
        Some(s) => strip_html(s),
        None => match enrichment {
            Some(meta) => match meta.description {
                Some(d) => d,
                None => fallback_description(),
            },
            None => fallback_description(),
        },
    }
}

/// The embed thumbnail: the item's cover image, else the enrichment's
/// preview image, else absent.
pub open spec fn embed_thumbnail(
    cover_image: Option<Seq<char>>,
    enrichment: Option<PageMetadataModel>,
) -> Option<Seq<char>> {
    match cover_image {
        Some(c) => Some(c),
        None => match enrichment {
            Some(meta) => meta.thumbnail,
            None => None,
        },
    }
}

/// The post's creation time: the item's publish time, or `now`.
pub open spec fn assembled_created_at(publish_time: Option<int>, now: int) -> int {
    match publish_time {
        Some(t) => t,
        None => now,
    }
}

/// The whole assembled post for an item, given the target languages, the
/// enrichment result if any, and the current time.
pub open spec fn assemble_spec(
    item: CandidateItemModel,
    languages: Seq<Seq<char>>,
    enrichment: Option<PageMetadataModel>,
    now: int,
) -> PostDataModel {
    PostDataModel {
        text: assembled_text(item.title, item.link),
        languages,
        created_at: assembled_created_at(item.publish_time, now),
        embed: Some(
            PostEmbedModel {
                title: embed_title(item.title, item.link),
                description: embed_description(item.summary, enrichment),
                uri: item.link,
                thumbnail_url: embed_thumbnail(item.cover_image, enrichment),
            },
        ),
    }
}

/// The enrichment's model, if enrichment data is present.
pub open spec fn enrichment_model(enrichment: &Option<PageMetadata>) -> Option<PageMetadataModel> {
    match *enrichment {
        Some(meta) => Some(meta@),
        None => None,
    }
}

/// Assemble the normalized post for `item`: text, languages, creation
/// time, and a link-preview embed with fixed fallbacks for missing
/// metadata. Missing metadata is never an error.
pub fn assemble_post(
    item: &CandidateItem,
    languages: &Vec<String>,
    enrichment: &Option<PageMetadata>,
    now: i64,
) -> (post: PostData)
    ensures
        post@ == assemble_spec(
            item@,
            languages.deep_view(),
            enrichment_model(enrichment),
            now as int,
        ),
{
    let mut text = String::new();
    match &item.title {
        Some(t) => text.append(t.as_str()),
        None => text.append("New post"),
    }
    text.append(" - ");
    text.append(item.link.as_str());

    let embed_title_s: String = match &item.title {
        Some(t) => t.clone(),
        None => item.link.clone(),
    };

    let description: String = match &item.summary {
        Some(s) => strip_html_text(s),
        None => match enrichment {
            Some(meta) => match &meta.description {
                Some(d) => d.clone(),
                None => String::from_str("This site has not provided a description"),
            },
            None => String::from_str("This site has not provided a description"),
        },
    };

    let thumbnail_url: Option<String> = match &item.cover_image {
        Some(c) => Some(c.clone()),
        None => match enrichment {
            Some(meta) => clone_opt_string(&meta.thumbnail),
            None => None,
        },
    };

    let created_at: i64 = match item.publish_time {
        Some(t) => t,
        None => now,
    };

    PostData {
        text,
        languages: clone_string_vec(languages),
        created_at,
        embed: Some(
            PostEmbed {
                title: embed_title_s,
                description,
                uri: item.link.clone(),
                thumbnail_url,
            },
        ),
    }
}

impl CandidateItem {
    /// The candidate carried by an API news post: every field is present.
    pub fn from_news_post(post: &NikkiNewsPost) -> (item: CandidateItem)
        ensures
            item@ == candidate_of_news(post@),
    {
        CandidateItem {
            title: Some(post.title.clone()),
            link: post.url.clone(),
            publish_time: Some(post.publish_time),
            summary: Some(post.summary.clone()),
            cover_image: Some(post.cover.clone()),
        }
    }

    /// The candidate carried by a feed entry, if the entry has a link; a
    /// feed entry brings no cover image of its own.
    pub fn from_feed_entry(entry: &FeedEntry) -> (item: Option<CandidateItem>)
        ensures
            item is Some <==> entry@.link is Some,
            item is Some ==> item.unwrap()@ == (CandidateItemModel {
                title: entry@.title,
                link: entry@.link.unwrap(),
                publish_time: entry@.published,
                summary: entry@.summary,
                cover_image: None,
            }),
    {
        match &entry.link {
            Some(link) => Some(
                CandidateItem {
                    title: clone_opt_string(&entry.title),
                    link: link.clone(),
                    publish_time: entry.published,
                    summary: clone_opt_string(&entry.summary),
                    cover_image: None,
                },
            ),
            None => None,
        }
    }
}

/// Law: with no summary and no usable enrichment, the embed description
/// is exactly the fixed fallback string — missing metadata degrades to a
/// default and is never an error.
pub proof fn lemma_description_fallback(enrichment: Option<PageMetadataModel>)
    ensures
        enrichment is None || enrichment.unwrap().description is None ==> embed_description(
            None,
            enrichment,
        ) == fallback_description(),
{
}

/// The candidate that an API news post yields.
pub open spec fn candidate_of_news(post: NewsPostModel) -> CandidateItemModel {
    CandidateItemModel {
        title: Some(post.title),
        link: post.url,
        publish_time: Some(post.publish_time),
        summary: Some(post.summary),
        cover_image: Some(post.cover),
    }
}

} // verus!
