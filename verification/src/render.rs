//! The content renderer: the message body that is published for an entry.

use vstd::prelude::*;
use vstd::string::*;
use crate::config::RssConfig;
use crate::config::SetupConfig;
use crate::entry::PublishTime;
use crate::entry::RawEntry;
use crate::fields::field_value;
use crate::fields::get_field_value;
use crate::text::decimal;
use crate::text::decimal_text;
use crate::text::opt_text;
use crate::text::trim_text;
use crate::text::trimmed;

verus! {

/// The fields of an entry after resolution.
#[derive(Debug, Clone)]
pub struct NormalizedEntry {
    pub title: Option<String>,
    pub link: Option<String>,
    pub content: Option<String>,
    pub author: Option<String>,
    pub author_link: Option<String>,
    pub published: Option<PublishTime>,
}

/// Whether `entry` holds the resolved fields of `item` under `setup`.
pub open spec fn normalizes(entry: NormalizedEntry, item: RawEntry, setup: Option<SetupConfig>) -> bool {
    &&& opt_text(entry.title) == field_value(item, setup, "title"@)
    &&& opt_text(entry.link) == field_value(item, setup, "link"@)
    &&& opt_text(entry.content) == field_value(item, setup, "content"@)
    &&& opt_text(entry.author) == field_value(item, setup, "author"@)
    &&& opt_text(entry.author_link) == field_value(item, setup, "authorLink"@)
    &&& entry.published == item.published
}

/// Resolves the fields of an entry that the renderer shows.
pub fn normalize(item: &RawEntry, config: &RssConfig) -> (entry: NormalizedEntry)
    ensures
        normalizes(entry, *item, config.setup),
{
    NormalizedEntry {
        title: get_field_value(item, config, "title"),
        link: get_field_value(item, config, "link"),
        content: get_field_value(item, config, "content"),
        author: get_field_value(item, config, "author"),
        author_link: get_field_value(item, config, "authorLink"),
        published: item.published,
    }
}

/// The Markdown that the converter makes of an HTML text, or `None` where
/// the converter fails on it.
pub uninterp spec fn markdown_of(html: Seq<char>) -> Option<Seq<char>>;

/// `htmd::convert`: turns HTML into Markdown with the default options, or
/// fails with an I/O error of the parser. The result depends on the text
/// alone; the contract gives it a name and claims no more.
#[verifier::external_body]
pub(crate) fn html_to_markdown(html: &str) -> (r: Option<String>)
    ensures
        opt_text(r) == markdown_of(html@),
{
    htmd::convert(html).ok()
}

/// The title shown for an entry: its own, or `Untitled`.
pub open spec fn shown_title(title: Option<Seq<char>>) -> Seq<char> {
    match title {
        Some(t) => t,
        None => "Untitled"@,
    }
}

/// The heading: emoji and title, the title as a link where there is one.
pub open spec fn heading_line(emoji: Seq<char>, title: Seq<char>, link: Option<Seq<char>>) -> Seq<char> {
    match link {
        Some(l) => "# "@ + emoji + " | ["@ + title + "](<"@ + l + ">)"@,
        None => "# "@ + emoji + " | "@ + title,
    }
}

/// The attribution: the author, as a link where an address is known.
pub open spec fn author_line(author: Seq<char>, author_link: Option<Seq<char>>) -> Seq<char> {
    match author_link {
        Some(al) => "-# 🖊️ ["@ + author + "](<"@ + al + ">)"@,
        None => "-# 🖊️ "@ + author,
    }
}

/// The body: the converted content without surrounding white space, between
/// two line breaks.
pub open spec fn body_block(markdown: Seq<char>) -> Seq<char> {
    "\n"@ + trimmed(markdown) + "\n"@
}

/// The timestamp line, which the destination shows as a date.
pub open spec fn time_line(timestamp: int) -> Seq<char> {
    "\n-# 🕐 <t:"@ + decimal(timestamp) + ":f>"@
}

/// The text that is shown as body of an entry: what the converter made of
/// its content or, where the converter failed, the content as it is.
pub open spec fn shown_body(content: Option<Seq<char>>, converted: Option<Seq<char>>) -> Option<
    Seq<char>,
> {
    match content {
        Some(c) => match converted {
            Some(m) => Some(m),
            None => Some(c),
        },
        None => None,
    }
}

/// The instant shown for an entry: its time of publication, else `now`.
pub open spec fn shown_time(published: Option<PublishTime>, now: i64) -> int {
    match published {
        Some(t) => t.secs as int,
        None => now as int,
    }
}

/// The attribution with the line break before it, or nothing without author.
pub open spec fn author_part(author: Option<Seq<char>>, author_link: Option<Seq<char>>) -> Seq<char> {
    match author {
        Some(a) => "\n"@ + author_line(a, author_link),
        None => Seq::empty(),
    }
}

/// The body with the line break before it, or nothing without content.
pub open spec fn body_part(body: Option<Seq<char>>) -> Seq<char> {
    match body {
        Some(b) => "\n"@ + body_block(b),
        None => Seq::empty(),
    }
}

/// The message for an entry: heading, attribution, body and timestamp, each
/// on a line of its own, the attribution and the body only where the entry
/// has them.
pub open spec fn message_text(
    emoji: Seq<char>,
    entry: NormalizedEntry,
    converted: Option<Seq<char>>,
    now: i64,
) -> Seq<char> {
    heading_line(emoji, shown_title(opt_text(entry.title)), opt_text(entry.link)) + author_part(
        opt_text(entry.author),
        opt_text(entry.author_link),
    ) + body_part(shown_body(opt_text(entry.content), converted)) + "\n"@ + time_line(
        shown_time(entry.published, now),
    )
}

fn push_heading(out: &mut String, emoji: &str, entry: &NormalizedEntry)
    ensures
        final(out)@ == old(out)@ + heading_line(
            emoji@,
            shown_title(opt_text(entry.title)),
            opt_text(entry.link),
        ),
{
    let ghost before = out@;
    out.append("# ");
    out.append(emoji);
    match &entry.link {
        Some(l) => {
            out.append(" | [");
            match &entry.title {
                Some(t) => out.append(t.as_str()),
                None => out.append("Untitled"),
            }
            out.append("](<");
            out.append(l.as_str());
            out.append(">)");
        },
        None => {
            out.append(" | ");
            match &entry.title {
                Some(t) => out.append(t.as_str()),
                None => out.append("Untitled"),
            }
        },
    }
    assert(out@ =~= before + heading_line(
        emoji@,
        shown_title(opt_text(entry.title)),
        opt_text(entry.link),
    ));
}

fn push_author(out: &mut String, entry: &NormalizedEntry)
    ensures
        final(out)@ == old(out)@ + author_part(opt_text(entry.author), opt_text(entry.author_link)),
{
    let ghost before = out@;
    match &entry.author {
        Some(a) => {
            out.append("\n");
            match &entry.author_link {
                Some(al) => {
                    out.append("-# 🖊️ [");
                    out.append(a.as_str());
                    out.append("](<");
                    out.append(al.as_str());
                    out.append(">)");
                },
                None => {
                    out.append("-# 🖊️ ");
                    out.append(a.as_str());
                },
            }
        },
        None => {},
    }
    assert(out@ =~= before + author_part(opt_text(entry.author), opt_text(entry.author_link)));
}

fn push_body(out: &mut String, entry: &NormalizedEntry, converted: &Option<String>)
    ensures
        final(out)@ == old(out)@ + body_part(shown_body(opt_text(entry.content), opt_text(*converted))),
{
    let ghost before = out@;
    match &entry.content {
        Some(c) => {
            let shown = match converted {
                Some(m) => m.as_str(),
                None => c.as_str(),
            };
            out.append("\n");
            out.append("\n");
            out.append(trim_text(shown));
            out.append("\n");
        },
        None => {},
    }
    assert(out@ =~= before + body_part(shown_body(opt_text(entry.content), opt_text(*converted))));
}

fn push_time(out: &mut String, entry: &NormalizedEntry, now: i64)
    ensures
        final(out)@ == old(out)@ + "\n"@ + time_line(shown_time(entry.published, now)),
        final(out)@.len() > 0,
{
    let ghost before = out@;
    let timestamp = match entry.published {
        Some(t) => t.secs,
        None => now,
    };
    let number = decimal_text(timestamp);
    out.append("\n");
    out.append("\n-# 🕐 <t:");
    out.append(number.as_str());
    out.append(":f>");
    proof {
        reveal_strlit(":f>");
    }
    assert(out@ =~= before + "\n"@ + time_line(shown_time(entry.published, now)));
}

/// Renders an entry whose content has been through the converter:
/// `converted` is what the converter returned for the content. The message
/// is never empty.
pub fn render_converted(emoji: &str, entry: &NormalizedEntry, converted: &Option<String>, now: i64) -> (r:
    String)
    ensures
        r@ == message_text(emoji@, *entry, opt_text(*converted), now),
        r@.len() > 0,
{
    let mut out = String::new();
    push_heading(&mut out, emoji, entry);
    push_author(&mut out, entry);
    push_body(&mut out, entry, converted);
    push_time(&mut out, entry, now);
    assert(out@ =~= message_text(emoji@, *entry, opt_text(*converted), now));
    if out.as_str().is_empty() {
        // Not reached: the timestamp line is always there.
        match &entry.link {
            Some(l) => l.clone(),
            None => String::from_str("No content available."),
        }
    } else {
        out
    }
}

/// What the converter makes of an entry's content, where it has content.
pub open spec fn converted_content(content: Option<Seq<char>>) -> Option<Seq<char>> {
    match content {
        Some(c) => markdown_of(c),
        None => None,
    }
}

/// Renders a resolved entry: converts its content to Markdown and lays the
/// message out. `now` is the time shown for an entry without time of
/// publication, in seconds since the Unix epoch.
pub fn render(config: &RssConfig, entry: &NormalizedEntry, now: i64) -> (r: String)
    ensures
        r@ == message_text(config.emoji@, *entry, converted_content(opt_text(entry.content)), now),
        r@.len() > 0,
{
    let converted = match &entry.content {
        Some(c) => html_to_markdown(c.as_str()),
        None => None,
    };
    render_converted(config.emoji.as_str(), entry, &converted, now)
}

/// The message for an entry of a feed, from the entry as it was parsed.
pub open spec fn content_text(config: RssConfig, item: RawEntry, now: i64) -> Seq<char> {
    let content = field_value(item, config.setup, "content"@);
    heading_line(
        config.emoji@,
        shown_title(field_value(item, config.setup, "title"@)),
        field_value(item, config.setup, "link"@),
    ) + author_part(
        field_value(item, config.setup, "author"@),
        field_value(item, config.setup, "authorLink"@),
    ) + body_part(shown_body(content, converted_content(content))) + "\n"@ + time_line(
        shown_time(item.published, now),
    )
}

/// Builds the message that is published for an entry. `now` is the time
/// shown for an entry without time of publication.
pub fn build_content(config: &RssConfig, item: &RawEntry, now: i64) -> (r: String)
    ensures
        r@ == content_text(*config, *item, now),
        r@.len() > 0,
{
    let entry = normalize(item, config);
    let r = render(config, &entry, now);
    assert(r@ =~= content_text(*config, *item, now));
    r
}

} // verus!
