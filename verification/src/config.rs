//! The static description of a feed and of where its entries go.

use vstd::prelude::*;

verus! {

/// One configured feed: where it is read from, where its entries are
/// published, and which entries are suppressed.
#[derive(Debug, Clone)]
pub struct RssConfig {
    /// Identifier of the destination channel, in decimal.
    pub channel: String,
    /// Identifier of the tag applied to each published post, in decimal.
    pub tag: String,
    /// Emoji shown in front of each heading.
    pub emoji: String,
    /// Address of the feed document.
    pub rss: String,
    /// Entries in any of these categories are suppressed.
    pub category_filter: Option<Vec<String>>,
    /// When present, only entries whose link matches one of these patterns
    /// are published.
    pub link_filter: Option<Vec<String>>,
    /// Whether images of an entry are uploaded with it.
    pub upload_image: bool,
    /// Which source each field of an entry is taken from.
    pub setup: Option<SetupConfig>,
}

/// For each field of an entry, the name of the source it is read from where
/// the feed offers more than one.
#[derive(Debug, Clone)]
pub struct SetupConfig {
    pub title: Option<String>,
    pub link: Option<String>,
    pub content: Option<String>,
    pub author: Option<String>,
    pub author_link: Option<String>,
    pub pub_date: Option<String>,
}

} // verus!
