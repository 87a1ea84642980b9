//! One entry of a feed, as plain values.

use vstd::prelude::*;

verus! {

/// A person named as author of an entry.
#[derive(Debug, Clone)]
pub struct Author {
    pub name: String,
    pub uri: Option<String>,
}

/// A point in time: seconds since the Unix epoch and the nanoseconds within
/// that second.
#[derive(Debug, Clone, Copy)]
pub struct PublishTime {
    pub secs: i64,
    pub nanos: u32,
}

/// One rendition of a media object attached to an entry.
#[derive(Debug, Clone)]
pub struct MediaContent {
    /// The kind of medium, such as `image` or `video`.
    pub medium: Option<String>,
    pub url: Option<String>,
}

/// A media object attached to an entry, with its renditions.
#[derive(Debug, Clone)]
pub struct MediaObject {
    pub content: Vec<MediaContent>,
}

/// One entry of a feed as it was parsed, whatever the dialect of the feed.
#[derive(Debug, Clone)]
pub struct RawEntry {
    /// The identifier that the feed itself gives the entry, if any.
    pub id: Option<String>,
    pub title: Option<String>,
    /// The targets of the entry's links, in the order of the document.
    pub links: Vec<String>,
    pub summary: Option<String>,
    /// The body of the entry's content element.
    pub content: Option<String>,
    pub published: Option<PublishTime>,
    pub authors: Vec<Author>,
    /// The names of the entry's categories.
    pub categories: Vec<String>,
    pub media: Vec<MediaObject>,
}

} // verus!
