//! Field resolution: the normalised fields of an entry, read either from the
//! source that the feed's configuration names or from a default source.

use vstd::prelude::*;
use vstd::string::*;
use crate::config::RssConfig;
use crate::config::SetupConfig;
use crate::entry::MediaObject;
use crate::entry::RawEntry;
use crate::text::clone_opt;
use crate::text::opt_text;
use crate::text::same_text;

verus! {

/// The RFC 3339 notation, in UTC, of the instant `secs` seconds and `nanos`
/// nanoseconds after the Unix epoch, or `None` where no such instant exists.
pub uninterp spec fn rfc3339_of(secs: i64, nanos: u32) -> Option<Seq<char>>;

/// `chrono::DateTime::from_timestamp` followed by `DateTime::to_rfc3339`:
/// the first returns `None` for seconds out of range or invalid nanoseconds,
/// the second writes the instant as RFC 3339 text. Both depend on their
/// arguments alone; the contract gives the result a name and claims no more.
#[verifier::external_body]
pub(crate) fn rfc3339_text(secs: i64, nanos: u32) -> (r: Option<String>)
    ensures
        opt_text(r) == rfc3339_of(secs, nanos),
{
    chrono::DateTime::from_timestamp(secs, nanos).map(|d| d.to_rfc3339())
}

/// The source that the configuration names for a field, if it names one.
pub open spec fn mapped_path(setup: Option<SetupConfig>, field: Seq<char>) -> Option<Seq<char>> {
    match setup {
        None => None,
        Some(s) => if field == "title"@ {
            opt_text(s.title)
        } else if field == "link"@ {
            opt_text(s.link)
        } else if field == "content"@ {
            opt_text(s.content)
        } else if field == "author"@ {
            opt_text(s.author)
        } else if field == "authorLink"@ {
            opt_text(s.author_link)
        } else if field == "pubDate"@ {
            opt_text(s.pub_date)
        } else {
            None
        },
    }
}

/// The entry's title.
pub open spec fn native_title(item: RawEntry) -> Option<Seq<char>> {
    opt_text(item.title)
}

/// The target of the entry's first link.
pub open spec fn first_link(item: RawEntry) -> Option<Seq<char>> {
    if item.links@.len() > 0 {
        Some(item.links@[0]@)
    } else {
        None
    }
}

/// The entry's summary.
pub open spec fn native_summary(item: RawEntry) -> Option<Seq<char>> {
    opt_text(item.summary)
}

/// The body of the entry's content.
pub open spec fn native_content(item: RawEntry) -> Option<Seq<char>> {
    opt_text(item.content)
}

/// The time of publication as RFC 3339 text.
pub open spec fn published_text(item: RawEntry) -> Option<Seq<char>> {
    match item.published {
        Some(t) => rfc3339_of(t.secs, t.nanos),
        None => None,
    }
}

/// The name of the entry's first author.
pub open spec fn first_author_name(item: RawEntry) -> Option<Seq<char>> {
    if item.authors@.len() > 0 {
        Some(item.authors@[0].name@)
    } else {
        None
    }
}

/// The address of the entry's first author.
pub open spec fn first_author_uri(item: RawEntry) -> Option<Seq<char>> {
    if item.authors@.len() > 0 {
        opt_text(item.authors@[0].uri)
    } else {
        None
    }
}

/// Whether `path` is one of the source names that an entry offers.
pub open spec fn recognized_path(path: Seq<char>) -> bool {
    ||| path == "title"@
    ||| path == "link"@
    ||| path == "description"@
    ||| path == "summary"@
    ||| path == "content"@
    ||| path == "published"@
    ||| path == "pubDate"@
    ||| path == "dc:creator"@
    ||| path == "author.name"@
    ||| path == "author.uri"@
}

/// What an entry holds under a recognized source name.
pub open spec fn path_value(item: RawEntry, path: Seq<char>) -> Option<Seq<char>> {
    if path == "title"@ {
        native_title(item)
    } else if path == "link"@ {
        first_link(item)
    } else if path == "description"@ || path == "summary"@ {
        native_summary(item)
    } else if path == "content"@ {
        native_content(item)
    } else if path == "published"@ || path == "pubDate"@ {
        published_text(item)
    } else if path == "dc:creator"@ || path == "author.name"@ {
        first_author_name(item)
    } else if path == "author.uri"@ {
        first_author_uri(item)
    } else {
        None
    }
}

/// What a field resolves to where the configuration names no usable source:
/// the content falls back to the summary, the other fields have one source
/// each, and an unknown field has no value.
pub open spec fn default_value(item: RawEntry, field: Seq<char>) -> Option<Seq<char>> {
    if field == "title"@ {
        native_title(item)
    } else if field == "link"@ {
        first_link(item)
    } else if field == "content"@ {
        match native_content(item) {
            Some(c) => Some(c),
            None => native_summary(item),
        }
    } else if field == "author"@ {
        first_author_name(item)
    } else if field == "authorLink"@ {
        first_author_uri(item)
    } else if field == "pubDate"@ {
        published_text(item)
    } else {
        None
    }
}

/// The value of a field of an entry under a feed's configuration: read from
/// the configured source where that source is recognized, from the default
/// source otherwise.
pub open spec fn field_value(item: RawEntry, setup: Option<SetupConfig>, field: Seq<char>) -> Option<
    Seq<char>,
> {
    match mapped_path(setup, field) {
        Some(path) => if recognized_path(path) {
            path_value(item, path)
        } else {
            default_value(item, field)
        },
        None => default_value(item, field),
    }
}

fn configured_path<'a>(setup: &'a Option<SetupConfig>, field: &str) -> (r: Option<&'a String>)
    ensures
        match r {
            Some(p) => mapped_path(*setup, field@) == Some(p@),
            None => mapped_path(*setup, field@).is_none(),
        },
{
    match setup {
        None => None,
        Some(s) => if same_text(field, "title") {
            s.title.as_ref()
        } else if same_text(field, "link") {
            s.link.as_ref()
        } else if same_text(field, "content") {
            s.content.as_ref()
        } else if same_text(field, "author") {
            s.author.as_ref()
        } else if same_text(field, "authorLink") {
            s.author_link.as_ref()
        } else if same_text(field, "pubDate") {
            s.pub_date.as_ref()
        } else {
            None
        },
    }
}

fn title_of(item: &RawEntry) -> (r: Option<String>)
    ensures
        opt_text(r) == native_title(*item),
{
    clone_opt(&item.title)
}

fn link_of(item: &RawEntry) -> (r: Option<String>)
    ensures
        opt_text(r) == first_link(*item),
{
    if item.links.len() > 0 {
        Some(item.links[0].clone())
    } else {
        None
    }
}

fn published_of(item: &RawEntry) -> (r: Option<String>)
    ensures
        opt_text(r) == published_text(*item),
{
    match item.published {
        Some(t) => rfc3339_text(t.secs, t.nanos),
        None => None,
    }
}

fn author_name_of(item: &RawEntry) -> (r: Option<String>)
    ensures
        opt_text(r) == first_author_name(*item),
{
    if item.authors.len() > 0 {
        Some(item.authors[0].name.clone())
    } else {
        None
    }
}

fn author_uri_of(item: &RawEntry) -> (r: Option<String>)
    ensures
        opt_text(r) == first_author_uri(*item),
{
    if item.authors.len() > 0 {
        clone_opt(&item.authors[0].uri)
    } else {
        None
    }
}

fn default_of(item: &RawEntry, field: &str) -> (r: Option<String>)
    ensures
        opt_text(r) == default_value(*item, field@),
{
    if same_text(field, "title") {
        title_of(item)
    } else if same_text(field, "link") {
        link_of(item)
    } else if same_text(field, "content") {
        match clone_opt(&item.content) {
            Some(c) => Some(c),
            None => clone_opt(&item.summary),
        }
    } else if same_text(field, "author") {
        author_name_of(item)
    } else if same_text(field, "authorLink") {
        author_uri_of(item)
    } else if same_text(field, "pubDate") {
        published_of(item)
    } else {
        None
    }
}

/// Resolves one field of an entry. The fields are `title`, `link`,
/// `content`, `author`, `authorLink` and `pubDate`; any other name has no
/// value.
pub fn get_field_value(item: &RawEntry, config: &RssConfig, field: &str) -> (r: Option<String>)
    ensures
        opt_text(r) == field_value(*item, config.setup, field@),
{
    match configured_path(&config.setup, field) {
        Some(p) => {
            let path = p.as_str();
            if same_text(path, "title") {
                title_of(item)
            } else if same_text(path, "link") {
                link_of(item)
            } else if same_text(path, "description") || same_text(path, "summary") {
                clone_opt(&item.summary)
            } else if same_text(path, "content") {
                clone_opt(&item.content)
            } else if same_text(path, "published") || same_text(path, "pubDate") {
                published_of(item)
            } else if same_text(path, "dc:creator") || same_text(path, "author.name") {
                author_name_of(item)
            } else if same_text(path, "author.uri") {
                author_uri_of(item)
            } else {
                default_of(item, field)
            }
        },
        None => default_of(item, field),
    }
}

/// Where the configuration names no source for the content, the content of
/// an entry is its native content and, where it has none, its summary.
pub proof fn lemma_content_falls_back_to_summary(item: RawEntry, setup: Option<SetupConfig>)
    requires
        setup matches Some(s) ==> s.content is None,
    ensures
        field_value(item, setup, "content"@) == (match opt_text(item.content) {
            Some(c) => Some(c),
            None => opt_text(item.summary),
        }),
{
    reveal_strlit("content");
    reveal_strlit("title");
    reveal_strlit("link");
    assert("content"@ != "title"@) by {
        assert("content"@[0] != "title"@[0]);
    }
    assert("content"@ != "link"@) by {
        assert("content"@[0] != "link"@[0]);
    }
}

/// The key under which an entry is remembered: its resolved link, else the
/// identifier that the feed gives it, else the empty text.
pub open spec fn identity(item: RawEntry, setup: Option<SetupConfig>) -> Seq<char> {
    match field_value(item, setup, "link"@) {
        Some(link) => link,
        None => match item.id {
            Some(id) => id@,
            None => Seq::empty(),
        },
    }
}

/// Computes the key under which an entry is remembered.
pub fn entry_identity(item: &RawEntry, config: &RssConfig) -> (r: String)
    ensures
        r@ == identity(*item, config.setup),
{
    match get_field_value(item, config, "link") {
        Some(link) => link,
        None => match &item.id {
            Some(id) => id.clone(),
            None => String::new(),
        },
    }
}

/// Whether one of a media object's renditions is an image.
pub open spec fn has_image(m: MediaObject) -> bool {
    exists|j: int| 0 <= j < m.content@.len() && opt_text(#[trigger] m.content@[j].medium) == Some("image"@)
}

/// The position of the first media object at or after `from` that has an
/// image among its renditions, or the number of objects where there is none.
pub open spec fn first_image_object(media: Seq<MediaObject>, from: int) -> int
    decreases media.len() - from,
{
    if from < 0 || from >= media.len() {
        media.len() as int
    } else if has_image(media[from]) {
        from
    } else {
        first_image_object(media, from + 1)
    }
}

/// The address of the first rendition of the first media object that has an
/// image among its renditions.
pub open spec fn image_url(item: RawEntry) -> Option<Seq<char>> {
    let i = first_image_object(item.media@, 0);
    if i < item.media@.len() {
        opt_text(item.media@[i].content@[0].url)
    } else {
        None
    }
}

fn object_has_image(m: &MediaObject) -> (r: bool)
    ensures
        r == has_image(*m),
{
    let mut j: usize = 0;
    while j < m.content.len()
        invariant
            j <= m.content@.len(),
            forall|k: int| 0 <= k < j ==> opt_text(#[trigger] m.content@[k].medium) != Some("image"@),
        decreases m.content@.len() - j,
    {
        let found = match &m.content[j].medium {
            Some(medium) => same_text(medium.as_str(), "image"),
            None => false,
        };
        if found {
            return true;
        }
        j += 1;
    }
    false
}

/// Finds the address of an entry's image.
pub fn extract_image_url(item: &RawEntry) -> (r: Option<String>)
    ensures
        opt_text(r) == image_url(*item),
{
    let mut i: usize = 0;
    while i < item.media.len()
        invariant
            i <= item.media@.len(),
            first_image_object(item.media@, 0) == first_image_object(item.media@, i as int),
        decreases item.media@.len() - i,
    {
        if object_has_image(&item.media[i]) {
            let m = &item.media[i];
            assert(m.content@.len() > 0);
            return clone_opt(&m.content[0].url);
        }
        i += 1;
    }
    None
}

} // verus!
